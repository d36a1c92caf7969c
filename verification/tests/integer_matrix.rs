use densenet::error::MatrixError;
use densenet::matrix::Matrix;

fn grid(rows: Vec<Vec<i64>>) -> Matrix<i64> {
    Matrix::from_values(rows).unwrap()
}

fn mismatch(a: (usize, usize), b: (usize, usize)) -> MatrixError {
    MatrixError::DimensionMismatch { left_rows: a.0, left_cols: a.1, right_rows: b.0, right_cols: b.1 }
}

#[test]
fn zeroed_matrix_is_all_zero() {
    let m = Matrix::<i64>::new_zeroed(2, 3).unwrap();
    assert_eq!(m.rows(), 2);
    assert_eq!(m.cols(), 3);
    assert_eq!(m.values(), &vec![vec![0, 0, 0], vec![0, 0, 0]]);
}

#[test]
fn zero_dimensions_are_invalid() {
    assert_eq!(
        Matrix::<i64>::new_zeroed(0, 3).err(),
        Some(MatrixError::InvalidDimension { rows: 0, cols: 3 })
    );
    assert_eq!(
        Matrix::<i64>::new_zeroed(3, 0).err(),
        Some(MatrixError::InvalidDimension { rows: 3, cols: 0 })
    );
    assert_eq!(
        Matrix::new_filled(0, 0, 7i64).err(),
        Some(MatrixError::InvalidDimension { rows: 0, cols: 0 })
    );
    assert_eq!(
        Matrix::<i64>::identity(0).err(),
        Some(MatrixError::InvalidDimension { rows: 0, cols: 0 })
    );
}

#[test]
fn from_values_takes_its_shape_from_the_first_row() {
    let m = grid(vec![vec![1, 2, 3], vec![4, 5, 6]]);
    assert_eq!(m.rows(), 2);
    assert_eq!(m.cols(), 3);
    assert_eq!(m.get(1, 0), Some(4));
    assert_eq!(m.get(0, 2), Some(3));
    assert_eq!(m.get(2, 0), None);
    assert_eq!(m.get(0, 3), None);
}

#[test]
fn from_values_rejects_empty_and_ragged_rows() {
    assert_eq!(
        Matrix::<i64>::from_values(vec![]).err(),
        Some(MatrixError::InvalidDimension { rows: 0, cols: 0 })
    );
    assert_eq!(
        Matrix::<i64>::from_values(vec![vec![], vec![]]).err(),
        Some(MatrixError::InvalidDimension { rows: 2, cols: 0 })
    );
    assert_eq!(
        Matrix::from_values(vec![vec![1i64, 2], vec![3]]).err(),
        Some(MatrixError::InvalidDimension { rows: 2, cols: 2 })
    );
    assert_eq!(
        Matrix::from_values(vec![vec![1i64], vec![2], vec![3, 4]]).err(),
        Some(MatrixError::InvalidDimension { rows: 3, cols: 1 })
    );
}

#[test]
fn product_is_rows_by_columns() {
    let a = grid(vec![vec![1, 2, 3], vec![4, 5, 6]]);
    let b = grid(vec![vec![7, 8], vec![9, 10], vec![11, 12]]);
    let p = Matrix::matrix_multiplication(&a, &b).unwrap();
    assert_eq!(p.rows(), 2);
    assert_eq!(p.cols(), 2);
    assert_eq!(p.values(), &vec![vec![58, 64], vec![139, 154]]);
}

#[test]
fn product_of_unfit_shapes_is_a_mismatch() {
    let a = grid(vec![vec![1, 2, 3], vec![4, 5, 6]]);
    let b = grid(vec![vec![1, 2, 3], vec![4, 5, 6]]);
    assert_eq!(Matrix::matrix_multiplication(&a, &b).err(), Some(mismatch((2, 3), (2, 3))));
    let c = grid(vec![vec![1], vec![2]]);
    assert_eq!(Matrix::matrix_multiplication(&a, &c).err(), Some(mismatch((2, 3), (2, 1))));
    assert_eq!(Matrix::matrix_multiplication(&c, &a).err(), Some(mismatch((2, 1), (2, 3))));
}

#[test]
fn product_with_the_identity_is_the_matrix() {
    let a = grid(vec![vec![1, -2, 3], vec![4, 5, -6]]);
    let id = Matrix::<i64>::identity(3).unwrap();
    assert_eq!(id.values(), &vec![vec![1, 0, 0], vec![0, 1, 0], vec![0, 0, 1]]);
    let p = Matrix::matrix_multiplication(&a, &id).unwrap();
    assert_eq!(p.values(), a.values());
}

#[test]
fn addition_and_subtraction_work_cell_by_cell() {
    let a = grid(vec![vec![1, 2], vec![3, 4]]);
    let b = grid(vec![vec![10, 20], vec![30, 40]]);
    assert_eq!(Matrix::matrix_addition(&a, &b).unwrap().values(), &vec![vec![11, 22], vec![33, 44]]);
    assert_eq!(
        Matrix::matrix_subtraction(&a, &b).unwrap().values(),
        &vec![vec![-9, -18], vec![-27, -36]]
    );
    assert_eq!(
        Matrix::matrix_component_multiplication(&a, &b).unwrap().values(),
        &vec![vec![10, 40], vec![90, 160]]
    );
}

#[test]
fn addition_commutes_and_associates() {
    let a = grid(vec![vec![1, 2], vec![3, 4]]);
    let b = grid(vec![vec![-5, 6], vec![7, -8]]);
    let c = grid(vec![vec![9, 10], vec![11, i64::MAX]]);
    let ab = Matrix::matrix_addition(&a, &b).unwrap();
    let ba = Matrix::matrix_addition(&b, &a).unwrap();
    assert_eq!(ab.values(), ba.values());
    let bc = Matrix::matrix_addition(&b, &c).unwrap();
    let left = Matrix::matrix_addition(&ab, &c).unwrap();
    let right = Matrix::matrix_addition(&a, &bc).unwrap();
    assert_eq!(left.values(), right.values());
}

#[test]
fn cellwise_operations_reject_differing_shapes() {
    let a = grid(vec![vec![1, 2], vec![3, 4]]);
    let b = grid(vec![vec![1, 2, 3], vec![4, 5, 6]]);
    let c = grid(vec![vec![1, 2]]);
    assert_eq!(Matrix::matrix_addition(&a, &b).err(), Some(mismatch((2, 2), (2, 3))));
    assert_eq!(Matrix::matrix_addition(&a, &c).err(), Some(mismatch((2, 2), (1, 2))));
    assert_eq!(Matrix::matrix_subtraction(&a, &b).err(), Some(mismatch((2, 2), (2, 3))));
    assert_eq!(Matrix::matrix_component_multiplication(&b, &a).err(), Some(mismatch((2, 3), (2, 2))));
}

#[test]
fn in_place_operations_change_the_receiver() {
    let mut a = grid(vec![vec![1, 2], vec![3, 4]]);
    let b = grid(vec![vec![10, 20], vec![30, 40]]);
    assert_eq!(a.matrix_addition_mut(&b), Ok(()));
    assert_eq!(a.values(), &vec![vec![11, 22], vec![33, 44]]);
    assert_eq!(a.matrix_subtraction_mut(&b), Ok(()));
    assert_eq!(a.matrix_subtraction_mut(&b), Ok(()));
    assert_eq!(a.values(), &vec![vec![-9, -18], vec![-27, -36]]);
    assert_eq!(a.matrix_component_multiplication_mut(&b), Ok(()));
    assert_eq!(a.values(), &vec![vec![-90, -360], vec![-810, -1440]]);
    a.scalar_multiplication_mut(-1);
    assert_eq!(a.values(), &vec![vec![90, 360], vec![810, 1440]]);
    assert_eq!(b.values(), &vec![vec![10, 20], vec![30, 40]]);
}

#[test]
fn in_place_operations_leave_the_receiver_on_a_mismatch() {
    let mut a = grid(vec![vec![1, 2], vec![3, 4]]);
    let b = grid(vec![vec![1, 2, 3]]);
    assert_eq!(a.matrix_addition_mut(&b), Err(mismatch((2, 2), (1, 3))));
    assert_eq!(a.matrix_subtraction_mut(&b), Err(mismatch((2, 2), (1, 3))));
    assert_eq!(a.matrix_component_multiplication_mut(&b), Err(mismatch((2, 2), (1, 3))));
    assert_eq!(a.values(), &vec![vec![1, 2], vec![3, 4]]);
    assert_eq!(a.rows(), 2);
    assert_eq!(a.cols(), 2);
}

#[test]
fn scalar_operations_touch_every_cell() {
    let a = grid(vec![vec![1, 2], vec![3, 4]]);
    assert_eq!(Matrix::scalar_multiplication(&a, 3).values(), &vec![vec![3, 6], vec![9, 12]]);
    assert_eq!(Matrix::scalar_addition(a, 3).values(), &vec![vec![4, 5], vec![6, 7]]);
}

#[test]
fn bias_row_is_added_to_every_row() {
    let a = Matrix::new_filled(3, 4, 1i64).unwrap();
    let bias = grid(vec![vec![1, 2, 3, 4]]);
    let r = Matrix::matrix_addition_filling_rows(&a, &bias).unwrap();
    assert_eq!(r.rows(), 3);
    assert_eq!(r.cols(), 4);
    assert_eq!(r.values(), &vec![vec![2, 3, 4, 5], vec![2, 3, 4, 5], vec![2, 3, 4, 5]]);
}

#[test]
fn bias_row_must_be_one_row_of_the_same_width() {
    let a = Matrix::new_filled(3, 4, 1i64).unwrap();
    let narrow = grid(vec![vec![1, 2, 3]]);
    let tall = grid(vec![vec![1, 2, 3, 4], vec![1, 2, 3, 4]]);
    assert_eq!(Matrix::matrix_addition_filling_rows(&a, &narrow).err(), Some(mismatch((3, 4), (1, 3))));
    assert_eq!(Matrix::matrix_addition_filling_rows(&a, &tall).err(), Some(mismatch((3, 4), (2, 4))));
}

#[test]
fn bias_column_is_added_to_every_column() {
    let a = grid(vec![vec![1, 2, 3], vec![4, 5, 6]]);
    let bias = grid(vec![vec![10], vec![20]]);
    let r = Matrix::matrix_addition_filling_cols(&a, &bias).unwrap();
    assert_eq!(r.values(), &vec![vec![11, 12, 13], vec![24, 25, 26]]);
    let short = grid(vec![vec![10]]);
    let wide = grid(vec![vec![10, 1], vec![20, 2]]);
    assert_eq!(Matrix::matrix_addition_filling_cols(&a, &short).err(), Some(mismatch((2, 3), (1, 1))));
    assert_eq!(Matrix::matrix_addition_filling_cols(&a, &wide).err(), Some(mismatch((2, 3), (2, 2))));
}

#[test]
fn transpose_exchanges_rows_and_columns() {
    let a = grid(vec![vec![1, 2, 3], vec![4, 5, 6]]);
    let t = a.transpose();
    assert_eq!(t.rows(), 3);
    assert_eq!(t.cols(), 2);
    assert_eq!(t.values(), &vec![vec![1, 4], vec![2, 5], vec![3, 6]]);
    assert_eq!(t.transpose().values(), a.values());
}

#[test]
fn single_rows_and_columns_are_matrices() {
    let a = grid(vec![vec![1, 2, 3], vec![4, 5, 6]]);
    let row = a.get_single_row(1).unwrap();
    assert_eq!((row.rows(), row.cols()), (1, 3));
    assert_eq!(row.values(), &vec![vec![4, 5, 6]]);
    let col = a.get_single_col(2).unwrap();
    assert_eq!((col.rows(), col.cols()), (2, 1));
    assert_eq!(col.values(), &vec![vec![3], vec![6]]);
}

#[test]
fn rows_and_columns_out_of_range_are_reported() {
    let a = grid(vec![vec![1, 2, 3], vec![4, 5, 6]]);
    assert_eq!(a.get_single_row(2).err(), Some(MatrixError::IndexOutOfRange { index: 2, bound: 2 }));
    assert_eq!(a.get_single_col(3).err(), Some(MatrixError::IndexOutOfRange { index: 3, bound: 3 }));
    assert_eq!(a.get_single_col(9).err(), Some(MatrixError::IndexOutOfRange { index: 9, bound: 3 }));
}

#[test]
fn function_is_applied_to_every_cell() {
    let a = grid(vec![vec![1, -2], vec![3, -4]]);
    let r = a.apply_function(&|x: i64| x * x + 1);
    assert_eq!(r.values(), &vec![vec![2, 5], vec![10, 17]]);
    assert_eq!(a.values(), &vec![vec![1, -2], vec![3, -4]]);
}

#[test]
fn column_totals_sum_down_the_rows() {
    let a = grid(vec![vec![1, 2, 3], vec![4, 5, 6], vec![7, 8, 9]]);
    let t = a.column_totals();
    assert_eq!((t.rows(), t.cols()), (1, 3));
    assert_eq!(t.values(), &vec![vec![12, 15, 18]]);
}

#[test]
fn clone_is_a_deep_copy() {
    let a = grid(vec![vec![1, 2], vec![3, 4]]);
    let mut b = a.clone();
    b.scalar_multiplication_mut(10);
    assert_eq!(a.values(), &vec![vec![1, 2], vec![3, 4]]);
    assert_eq!(b.values(), &vec![vec![10, 20], vec![30, 40]]);
}

#[test]
fn integer_arithmetic_wraps() {
    let a = grid(vec![vec![i64::MAX]]);
    let one = grid(vec![vec![1]]);
    assert_eq!(Matrix::matrix_addition(&a, &one).unwrap().values(), &vec![vec![i64::MIN]]);
    assert_eq!(Matrix::scalar_multiplication(&a, 2).values(), &vec![vec![-2]]);
    let low = grid(vec![vec![i64::MIN]]);
    assert_eq!(Matrix::matrix_subtraction(&low, &one).unwrap().values(), &vec![vec![i64::MAX]]);
}
