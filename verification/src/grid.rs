//! The mathematical model of a matrix: a sequence of rows of equal length,
//! and the arithmetic on such sequences that the executable operations are
//! specified against.
use vstd::prelude::*;
use crate::scalar::Scalar;

verus! {

/// `g` has `rows` rows of `cols` cells each, and neither count is zero.
pub open spec fn is_grid<T>(g: Seq<Seq<T>>, rows: nat, cols: nat) -> bool {
    &&& rows > 0
    &&& cols > 0
    &&& g.len() == rows
    &&& forall|i: int| 0 <= i < rows ==> (#[trigger] g[i]).len() == cols
}

/// `a` and `b` have the same number of rows, and row by row the same length.
pub open spec fn same_shape<T>(a: Seq<Seq<T>>, b: Seq<Seq<T>>) -> bool {
    &&& a.len() == b.len()
    &&& forall|i: int| 0 <= i < a.len() ==> (#[trigger] a[i]).len() == b[i].len()
}

/// The grid of the given shape whose every cell is `value`.
pub open spec fn grid_fill<T>(rows: nat, cols: nat, value: T) -> Seq<Seq<T>> {
    Seq::new(rows, |i: int| Seq::new(cols, |j: int| value))
}

/// The cellwise sum of two grids of one shape.
pub open spec fn grid_sum<T: Scalar>(a: Seq<Seq<T>>, b: Seq<Seq<T>>) -> Seq<Seq<T>> {
    Seq::new(a.len(), |i: int| Seq::new(a[i].len(), |j: int| a[i][j].plus_spec(b[i][j])))
}

/// The cellwise difference of two grids of one shape.
pub open spec fn grid_difference<T: Scalar>(a: Seq<Seq<T>>, b: Seq<Seq<T>>) -> Seq<Seq<T>> {
    Seq::new(a.len(), |i: int| Seq::new(a[i].len(), |j: int| a[i][j].minus_spec(b[i][j])))
}

/// The cellwise (Hadamard) product of two grids of one shape.
pub open spec fn grid_hadamard<T: Scalar>(a: Seq<Seq<T>>, b: Seq<Seq<T>>) -> Seq<Seq<T>> {
    Seq::new(a.len(), |i: int| Seq::new(a[i].len(), |j: int| a[i][j].times_spec(b[i][j])))
}

/// Every cell of `a` multiplied, on its right, by `k`.
pub open spec fn grid_scale<T: Scalar>(a: Seq<Seq<T>>, k: T) -> Seq<Seq<T>> {
    Seq::new(a.len(), |i: int| Seq::new(a[i].len(), |j: int| a[i][j].times_spec(k)))
}

/// Every cell of `a` with `k` added, on its right.
pub open spec fn grid_shift<T: Scalar>(a: Seq<Seq<T>>, k: T) -> Seq<Seq<T>> {
    Seq::new(a.len(), |i: int| Seq::new(a[i].len(), |j: int| a[i][j].plus_spec(k)))
}

/// The first row of `b` added to every row of `a`.
pub open spec fn grid_add_row<T: Scalar>(a: Seq<Seq<T>>, b: Seq<Seq<T>>) -> Seq<Seq<T>> {
    Seq::new(a.len(), |i: int| Seq::new(a[i].len(), |j: int| a[i][j].plus_spec(b[0][j])))
}

/// The first column of `b` added to every column of `a`.
pub open spec fn grid_add_col<T: Scalar>(a: Seq<Seq<T>>, b: Seq<Seq<T>>) -> Seq<Seq<T>> {
    Seq::new(a.len(), |i: int| Seq::new(a[i].len(), |j: int| a[i][j].plus_spec(b[i][0])))
}

/// Rows and columns exchanged: cell `(i, j)` of the result is cell `(j, i)`
/// of `a`.
pub open spec fn grid_transpose<T>(a: Seq<Seq<T>>) -> Seq<Seq<T>> {
    Seq::new(a[0].len(), |i: int| Seq::new(a.len(), |j: int| a[j][i]))
}

/// Row `i` of `a` as a grid of one row.
pub open spec fn grid_row<T>(a: Seq<Seq<T>>, i: int) -> Seq<Seq<T>> {
    seq![a[i]]
}

/// Column `j` of `a` as a grid of one column.
pub open spec fn grid_col<T>(a: Seq<Seq<T>>, j: int) -> Seq<Seq<T>> {
    Seq::new(a.len(), |i: int| seq![a[i][j]])
}

/// The first `k` terms of the dot product of row `i` of `a` with column `j`
/// of `b`, accumulated from zero in ascending order of the index.
pub open spec fn dot<T: Scalar>(a: Seq<Seq<T>>, b: Seq<Seq<T>>, i: int, j: int, k: nat) -> T
    decreases k,
{
    if k == 0 {
        T::zero_spec()
    } else {
        dot(a, b, i, j, (k - 1) as nat).plus_spec(a[i][k - 1].times_spec(b[k - 1][j]))
    }
}

/// The matrix product: cell `(i, j)` is the dot product of row `i` of `a`
/// with column `j` of `b`.
pub open spec fn grid_product<T: Scalar>(a: Seq<Seq<T>>, b: Seq<Seq<T>>) -> Seq<Seq<T>> {
    Seq::new(a.len(), |i: int| Seq::new(b[0].len(), |j: int| dot(a, b, i, j, a[i].len())))
}

/// The sum of the first `n` cells of column `j` of `a`, accumulated from
/// zero from the top row down.
pub open spec fn column_total<T: Scalar>(a: Seq<Seq<T>>, j: int, n: nat) -> T
    decreases n,
{
    if n == 0 {
        T::zero_spec()
    } else {
        column_total(a, j, (n - 1) as nat).plus_spec(a[n - 1][j])
    }
}

/// The grid of one row that holds the total of each column of `a`.
pub open spec fn grid_column_totals<T: Scalar>(a: Seq<Seq<T>>) -> Seq<Seq<T>> {
    seq![Seq::new(a[0].len(), |j: int| column_total(a, j, a.len()))]
}

/// The identity grid of side `n`: one on the diagonal, zero elsewhere.
pub open spec fn grid_identity<T: Scalar>(n: nat) -> Seq<Seq<T>> {
    Seq::new(n, |i: int| Seq::new(n, |j: int| if i == j { T::one_spec() } else { T::zero_spec() }))
}

} // verus!
