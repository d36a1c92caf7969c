//! The loss that training is monitored by.
use vstd::prelude::*;
use crate::error::MatrixError;
use crate::matrix::{mismatch, Matrix};
use crate::scalar::Scalar;

verus! {

/// The sum, over the first `n` cells of row `i`, of the squared difference
/// between `expected` and `actual`, accumulated from zero from left to
/// right.
pub open spec fn squared_error<T: Scalar>(
    expected: Seq<Seq<T>>,
    actual: Seq<Seq<T>>,
    i: int,
    n: nat,
) -> T
    decreases n,
{
    if n == 0 {
        T::zero_spec()
    } else {
        let d = expected[i][n - 1].minus_spec(actual[i][n - 1]);
        squared_error(expected, actual, i, (n - 1) as nat).plus_spec(d.times_spec(d))
    }
}

/// The sum, over the first `m` rows, of the row's squared error divided by
/// `count`, accumulated from zero from the top row down.
pub open spec fn mean_squared_error<T: Scalar>(
    expected: Seq<Seq<T>>,
    actual: Seq<Seq<T>>,
    m: nat,
    count: usize,
) -> T
    decreases m,
{
    if m == 0 {
        T::zero_spec()
    } else {
        mean_squared_error(expected, actual, (m - 1) as nat, count).plus_spec(
            squared_error(expected, actual, m - 1, expected[m - 1].len()).ratio_spec(count),
        )
    }
}

/// The mean over the rows of the squared error of each row: for every row
/// the squared differences of its cells are summed and divided by the number
/// of rows, and the quotients are summed. Only the columns of `expected`
/// are compared. Fails with `DimensionMismatch` unless `actual` has the rows
/// of `expected` and at least its columns.
pub fn cost<T: Scalar>(expected: &Matrix<T>, actual: &Matrix<T>) -> (r: Result<T, MatrixError>)
    requires
        expected.wf(),
        actual.wf(),
    ensures
        expected.rows() == actual.rows() && expected.cols() <= actual.cols() ==> r == Ok::<
            T,
            MatrixError,
        >(mean_squared_error(expected@, actual@, expected.rows() as nat, expected.rows())),
        !(expected.rows() == actual.rows() && expected.cols() <= actual.cols()) ==> r == Err::<
            T,
            MatrixError,
        >(mismatch(expected, actual)),
{
    let rows = expected.rows();
    let cols = expected.cols();
    if rows != actual.rows() || cols > actual.cols() {
        return Err(
            MatrixError::DimensionMismatch {
                left_rows: rows,
                left_cols: cols,
                right_rows: actual.rows(),
                right_cols: actual.cols(),
            },
        );
    }
    let mut result = T::zero();
    let mut i: usize = 0;
    while i < rows
        invariant
            expected.wf(),
            actual.wf(),
            rows == expected.rows(),
            cols == expected.cols(),
            rows == actual.rows(),
            cols <= actual.cols(),
            i <= rows,
            result == mean_squared_error(expected@, actual@, i as nat, rows),
        decreases rows - i,
    {
        let mut x = T::zero();
        let mut j: usize = 0;
        while j < cols
            invariant
                expected.wf(),
                actual.wf(),
                rows == expected.rows(),
                cols == expected.cols(),
                rows == actual.rows(),
                cols <= actual.cols(),
                i < rows,
                j <= cols,
                x == squared_error(expected@, actual@, i as int, j as nat),
            decreases cols - j,
        {
            let e = expected.get(i, j).unwrap();
            let a = actual.get(i, j).unwrap();
            let temp = e.minus(a);
            x = x.plus(temp.times(temp));
            j += 1;
        }
        result = result.plus(x.ratio(rows));
        i += 1;
    }
    Ok(result)
}

} // verus!
