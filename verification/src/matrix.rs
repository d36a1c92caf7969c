//! The dense matrix: a rectangular, non-empty grid of scalars stored row by
//! row, with checked arithmetic.
//!
//! Operations come in two families. The allocating ones borrow their operands
//! and return a new matrix. The ones whose name ends in `_mut` change the
//! receiver in place. Both report a shape that does not fit as an error and
//! leave every operand as it was.
use vstd::prelude::*;
use crate::error::MatrixError;
use crate::grid::{
    column_total, dot, grid_add_col, grid_add_row, grid_col, grid_column_totals, grid_difference,
    grid_fill, grid_hadamard, grid_identity, grid_product, grid_row, grid_scale, grid_shift,
    grid_sum, grid_transpose, is_grid,
};
use crate::random::RandomSource;
use crate::scalar::Scalar;

verus! {

/// A matrix of `rows` by `cols` cells, both at least one.
#[derive(Debug)]
pub struct Matrix<T> {
    values: Vec<Vec<T>>,
    rows: usize,
    cols: usize,
}

impl<T> View for Matrix<T> {
    type V = Seq<Seq<T>>;

    /// The cells, row by row.
    closed spec fn view(&self) -> Seq<Seq<T>> {
        Seq::new(self.values@.len(), |i: int| self.values@[i]@)
    }
}

/// Both matrices have the same number of rows and of columns.
pub open spec fn shapes_agree<T: Copy>(a: &Matrix<T>, b: &Matrix<T>) -> bool {
    a.rows() == b.rows() && a.cols() == b.cols()
}

/// The error that reports the shapes of two operands that do not fit.
pub open spec fn mismatch<T: Copy>(a: &Matrix<T>, b: &Matrix<T>) -> MatrixError {
    MatrixError::DimensionMismatch {
        left_rows: a.rows(),
        left_cols: a.cols(),
        right_rows: b.rows(),
        right_cols: b.cols(),
    }
}

/// The rows are at least one, the first is not empty, and all have its
/// length.
pub open spec fn rows_form_grid<T>(values: Vec<Vec<T>>) -> bool {
    &&& values@.len() > 0
    &&& values@[0]@.len() > 0
    &&& forall|i: int|
        0 <= i < values@.len() ==> (#[trigger] values@[i])@.len() == values@[0]@.len()
}

/// `image` has the shape of `source`, and each of its cells is a value that
/// `function` can return for the cell of `source` in the same place.
pub open spec fn cellwise_image<T, F: Fn(T) -> T>(
    function: &F,
    source: Seq<Seq<T>>,
    image: Seq<Seq<T>>,
) -> bool {
    &&& image.len() == source.len()
    &&& forall|i: int| 0 <= i < source.len() ==> (#[trigger] image[i]).len() == source[i].len()
    &&& forall|i: int, j: int|
        0 <= i < source.len() && 0 <= j < source[i].len() ==> call_ensures(
            function,
            (source[i][j],),
            #[trigger] image[i][j],
        )
}

/// Every cell of the grid is a value that the source `S` may give.
pub open spec fn every_cell_in_range<T, S: RandomSource<T>>(g: Seq<Seq<T>>) -> bool {
    forall|i: int, j: int|
        0 <= i < g.len() && 0 <= j < g[i].len() ==> S::in_range(#[trigger] g[i][j])
}

impl<T: Copy> Matrix<T> {
    /// The number of rows.
    pub closed spec fn spec_rows(&self) -> usize {
        self.rows
    }

    /// The number of columns.
    pub closed spec fn spec_cols(&self) -> usize {
        self.cols
    }

    /// The invariant of the type: the cells form a grid of `rows()` by
    /// `cols()`, neither of them zero.
    pub open spec fn wf(&self) -> bool {
        is_grid(self@, self.spec_rows() as nat, self.spec_cols() as nat)
    }

    /// What the view is in terms of the stored rows.
    proof fn lemma_view(&self)
        ensures
            self@.len() == self.values@.len(),
            forall|i: int|
                0 <= i < self.values@.len() ==> self@[i] == (#[trigger] self.values@[i])@,
            self.rows() == self.rows,
            self.cols() == self.cols,
    {
    }

    /// The number of rows.
    #[verifier::when_used_as_spec(spec_rows)]
    pub fn rows(&self) -> (r: usize)
        ensures
            r == self.spec_rows(),
    {
        self.rows
    }

    /// The number of columns.
    #[verifier::when_used_as_spec(spec_cols)]
    pub fn cols(&self) -> (r: usize)
        ensures
            r == self.spec_cols(),
    {
        self.cols
    }

    /// The cell in row `i` and column `j`, where there is one.
    pub fn get(&self, i: usize, j: usize) -> (r: Option<T>)
        requires
            self.wf(),
        ensures
            r == (if i < self.rows() && j < self.cols() {
                Some(self@[i as int][j as int])
            } else {
                None
            }),
    {
        if i < self.rows && j < self.cols {
            assert(self@[i as int] == self.values@[i as int]@);
            Some(self.values[i][j])
        } else {
            None
        }
    }

    /// The cells, row by row.
    pub fn values(&self) -> (r: &Vec<Vec<T>>)
        ensures
            r@.len() == self@.len(),
            forall|i: int| 0 <= i < r@.len() ==> (#[trigger] r@[i])@ == self@[i],
    {
        &self.values
    }

    /// The cell in row `i` and column `j`.
    fn cell(&self, i: usize, j: usize) -> (r: T)
        requires
            self.wf(),
            i < self.rows(),
            j < self.cols(),
        ensures
            r == self@[i as int][j as int],
    {
        proof {
            self.lemma_view();
        }
        self.values[i][j]
    }

    /// Row `i` as it is stored.
    fn stored_row(&self, i: usize) -> (r: &Vec<T>)
        requires
            self.wf(),
            i < self.rows(),
        ensures
            r@ == self@[i as int],
            r@.len() == self.cols(),
    {
        proof {
            self.lemma_view();
        }
        &self.values[i]
    }

    /// The error that reports the shapes of `self` and `other`.
    fn mismatch_with(&self, other: &Matrix<T>) -> (e: MatrixError)
        ensures
            e == mismatch(self, other),
    {
        MatrixError::DimensionMismatch {
            left_rows: self.rows,
            left_cols: self.cols,
            right_rows: other.rows,
            right_cols: other.cols,
        }
    }
}

impl<T: Copy> Matrix<T> {
    /// A matrix whose every cell is `value`. Fails with `InvalidDimension`
    /// where a dimension is zero.
    pub fn new_filled(rows: usize, cols: usize, value: T) -> (r: Result<Matrix<T>, MatrixError>)
        ensures
            rows == 0 || cols == 0 ==> r == Err::<Matrix<T>, MatrixError>(
                MatrixError::InvalidDimension { rows, cols },
            ),
            rows > 0 && cols > 0 ==> r.is_ok() && r.unwrap().wf() && r.unwrap().rows() == rows
                && r.unwrap().cols() == cols && r.unwrap()@ == grid_fill(
                rows as nat,
                cols as nat,
                value,
            ),
    {
        if rows == 0 || cols == 0 {
            return Err(MatrixError::InvalidDimension { rows, cols });
        }
        let mut values: Vec<Vec<T>> = Vec::with_capacity(rows);
        let mut i: usize = 0;
        while i < rows
            invariant
                i <= rows,
                values@.len() == i,
                forall|r: int|
                    0 <= r < i
                        ==> (#[trigger] values@[r])@ == Seq::new(cols as nat, |j: int| value),
            decreases rows - i,
        {
            values.push(fill_row(cols, value));
            i += 1;
        }
        let m = Matrix { values, rows, cols };
        Ok(m)
    }

    /// The matrix that holds the given rows. Its shape is the number of rows
    /// by the length of the first. Fails with `InvalidDimension` where there
    /// is no row, where the first row is empty, or where a row differs in
    /// length from the first.
    pub fn from_values(values: Vec<Vec<T>>) -> (r: Result<Matrix<T>, MatrixError>)
        ensures
            match r {
                Ok(m) => {
                    &&& m.wf()
                    &&& m.rows() == values@.len()
                    &&& m.cols() == values@[0]@.len()
                    &&& m@.len() == values@.len()
                    &&& forall|i: int| 0 <= i < values@.len() ==> m@[i] == (#[trigger] values@[i])@
                },
                Err(e) => {
                    &&& !rows_form_grid(values)
                    &&& e == (MatrixError::InvalidDimension {
                        rows: values.len(),
                        cols: if values@.len() > 0 { values@[0].len() } else { 0 },
                    })
                },
            },
            r.is_ok() <==> rows_form_grid(values),
    {
        if values.len() == 0 {
            return Err(MatrixError::InvalidDimension { rows: 0, cols: 0 });
        }
        let rows = values.len();
        let cols = values[0].len();
        if cols == 0 {
            return Err(MatrixError::InvalidDimension { rows, cols });
        }
        let mut i: usize = 1;
        while i < rows
            invariant
                1 <= i <= rows,
                rows == values@.len(),
                cols == values@[0]@.len(),
                forall|r: int| 0 <= r < i ==> (#[trigger] values@[r])@.len() == cols,
            decreases rows - i,
        {
            if values[i].len() != cols {
                return Err(MatrixError::InvalidDimension { rows, cols });
            }
            i += 1;
        }
        let m = Matrix { values, rows, cols };
        Ok(m)
    }

    /// A matrix whose cells are drawn from `source`, row by row. Fails with
    /// `InvalidDimension` where a dimension is zero, and then draws nothing.
    pub fn new_random<S: RandomSource<T>>(rows: usize, cols: usize, source: &mut S) -> (r: Result<
        Matrix<T>,
        MatrixError,
    >)
        ensures
            rows == 0 || cols == 0 ==> r == Err::<Matrix<T>, MatrixError>(
                MatrixError::InvalidDimension { rows, cols },
            ),
            rows > 0 && cols > 0 ==> r.is_ok() && r.unwrap().wf() && r.unwrap().rows() == rows
                && r.unwrap().cols() == cols && every_cell_in_range::<T, S>(r.unwrap()@),
    {
        if rows == 0 || cols == 0 {
            return Err(MatrixError::InvalidDimension { rows, cols });
        }
        let mut values: Vec<Vec<T>> = Vec::with_capacity(rows);
        let mut i: usize = 0;
        while i < rows
            invariant
                i <= rows,
                values@.len() == i,
                forall|r: int| 0 <= r < i ==> (#[trigger] values@[r])@.len() == cols,
                forall|r: int, c: int|
                    0 <= r < i && 0 <= c < cols ==> S::in_range(#[trigger] values@[r]@[c]),
            decreases rows - i,
        {
            let mut line: Vec<T> = Vec::with_capacity(cols);
            let mut j: usize = 0;
            while j < cols
                invariant
                    j <= cols,
                    line@.len() == j,
                    forall|c: int| 0 <= c < j ==> S::in_range(#[trigger] line@[c]),
                decreases cols - j,
            {
                line.push(source.draw());
                j += 1;
            }
            values.push(line);
            i += 1;
        }
        let m = Matrix { values, rows, cols };
        proof {
            m.lemma_view();
        }
        Ok(m)
    }
}

impl<T: Scalar> Matrix<T> {
    /// A matrix whose every cell is zero. Fails with `InvalidDimension`
    /// where a dimension is zero.
    pub fn new_zeroed(rows: usize, cols: usize) -> (r: Result<Matrix<T>, MatrixError>)
        ensures
            rows == 0 || cols == 0 ==> r == Err::<Matrix<T>, MatrixError>(
                MatrixError::InvalidDimension { rows, cols },
            ),
            rows > 0 && cols > 0 ==> r.is_ok() && r.unwrap().wf() && r.unwrap().rows() == rows
                && r.unwrap().cols() == cols && r.unwrap()@ == grid_fill(
                rows as nat,
                cols as nat,
                T::zero_spec(),
            ),
    {
        Matrix::new_filled(rows, cols, T::zero())
    }

    /// The identity matrix of side `n`. Fails with `InvalidDimension` where
    /// `n` is zero.
    pub fn identity(n: usize) -> (r: Result<Matrix<T>, MatrixError>)
        ensures
            n == 0 ==> r == Err::<Matrix<T>, MatrixError>(
                MatrixError::InvalidDimension { rows: n, cols: n },
            ),
            n > 0 ==> r.is_ok() && r.unwrap().wf() && r.unwrap().rows() == n && r.unwrap().cols()
                == n && r.unwrap()@ == grid_identity::<T>(n as nat),
    {
        if n == 0 {
            return Err(MatrixError::InvalidDimension { rows: n, cols: n });
        }
        let mut values: Vec<Vec<T>> = Vec::with_capacity(n);
        let mut i: usize = 0;
        while i < n
            invariant
                i <= n,
                values@.len() == i,
                forall|r: int|
                    0 <= r < i ==> (#[trigger] values@[r])@ == grid_identity::<T>(n as nat)[r],
            decreases n - i,
        {
            let mut line: Vec<T> = fill_row(n, T::zero());
            line.set(i, T::one());
            values.push(line);
            i += 1;
        }
        let m = Matrix { values, rows: n, cols: n };
        Ok(m)
    }
}

impl<T: Copy> Matrix<T> {
    /// Column `i` as a matrix of one column. Fails with `IndexOutOfRange`
    /// where the matrix has no such column.
    pub fn get_single_col(&self, i: usize) -> (r: Result<Matrix<T>, MatrixError>)
        requires
            self.wf(),
        ensures
            i < self.cols() ==> r.is_ok() && r.unwrap().wf() && r.unwrap().rows() == self.rows()
                && r.unwrap().cols() == 1 && r.unwrap()@ == grid_col(self@, i as int),
            i >= self.cols() ==> r == Err::<Matrix<T>, MatrixError>(
                MatrixError::IndexOutOfRange { index: i, bound: self.cols() },
            ),
    {
        if i >= self.cols {
            return Err(MatrixError::IndexOutOfRange { index: i, bound: self.cols });
        }
        let mut values: Vec<Vec<T>> = Vec::with_capacity(self.rows);
        let mut row: usize = 0;
        while row < self.rows
            invariant
                self.wf(),
                i < self.cols(),
                row <= self.rows(),
                self.rows() == self.rows,
                values@.len() == row,
                forall|r: int|
                    0 <= r < row ==> (#[trigger] values@[r])@ == seq![self@[r][i as int]],
            decreases self.rows - row,
        {
            let mut single: Vec<T> = Vec::with_capacity(1);
            single.push(self.cell(row, i));
            values.push(single);
            row += 1;
        }
        let m = Matrix { values, rows: self.rows, cols: 1 };
        Ok(m)
    }

    /// Row `i` as a matrix of one row. Fails with `IndexOutOfRange` where
    /// the matrix has no such row.
    pub fn get_single_row(&self, i: usize) -> (r: Result<Matrix<T>, MatrixError>)
        requires
            self.wf(),
        ensures
            i < self.rows() ==> r.is_ok() && r.unwrap().wf() && r.unwrap().rows() == 1
                && r.unwrap().cols() == self.cols() && r.unwrap()@ == grid_row(self@, i as int),
            i >= self.rows() ==> r == Err::<Matrix<T>, MatrixError>(
                MatrixError::IndexOutOfRange { index: i, bound: self.rows() },
            ),
    {
        if i >= self.rows {
            return Err(MatrixError::IndexOutOfRange { index: i, bound: self.rows });
        }
        let source = self.stored_row(i);
        let mut copy: Vec<T> = Vec::with_capacity(self.cols);
        let mut j: usize = 0;
        while j < self.cols
            invariant
                j <= self.cols(),
                self.cols() == self.cols,
                source@.len() == self.cols(),
                copy@.len() == j,
                forall|c: int| 0 <= c < j ==> copy@[c] == source@[c],
            decreases self.cols - j,
        {
            copy.push(source[j]);
            j += 1;
        }
        assert(copy@ =~= self@[i as int]);
        let mut values: Vec<Vec<T>> = Vec::with_capacity(1);
        values.push(copy);
        let m = Matrix { values, rows: 1, cols: self.cols };
        Ok(m)
    }

    /// The matrix with rows and columns exchanged.
    pub fn transpose(&self) -> (r: Matrix<T>)
        requires
            self.wf(),
        ensures
            r.wf(),
            r.rows() == self.cols(),
            r.cols() == self.rows(),
            r@ == grid_transpose(self@),
    {
        let mut values: Vec<Vec<T>> = Vec::with_capacity(self.cols);
        let mut i: usize = 0;
        while i < self.cols
            invariant
                self.wf(),
                i <= self.cols(),
                self.cols() == self.cols,
                self.rows() == self.rows,
                values@.len() == i,
                forall|r: int| 0 <= r < i ==> (#[trigger] values@[r])@ == Seq::new(
                    self.rows() as nat,
                    |j: int| self@[j][r],
                ),
            decreases self.cols - i,
        {
            let mut line: Vec<T> = Vec::with_capacity(self.rows);
            let mut j: usize = 0;
            while j < self.rows
                invariant
                    self.wf(),
                    i < self.cols(),
                    j <= self.rows(),
                    self.rows() == self.rows,
                    line@.len() == j,
                    forall|c: int| 0 <= c < j ==> line@[c] == self@[c][i as int],
                decreases self.rows - j,
            {
                line.push(self.cell(j, i));
                j += 1;
            }
            values.push(line);
            i += 1;
        }
        let m = Matrix { values, rows: self.cols, cols: self.rows };
        m
    }

    /// The matrix whose every cell is what `function` returns for the cell
    /// of `self` in the same place.
    pub fn apply_function<F: Fn(T) -> T>(&self, function: &F) -> (r: Matrix<T>)
        requires
            self.wf(),
            forall|i: int, j: int|
                0 <= i < self.rows() && 0 <= j < self.cols() ==> call_requires(
                    function,
                    (#[trigger] self@[i][j],),
                ),
        ensures
            r.wf(),
            r.rows() == self.rows(),
            r.cols() == self.cols(),
            cellwise_image(function, self@, r@),
    {
        let mut values: Vec<Vec<T>> = Vec::with_capacity(self.rows);
        let mut i: usize = 0;
        while i < self.rows
            invariant
                self.wf(),
                i <= self.rows(),
                self.rows() == self.rows,
                self.cols() == self.cols,
                forall|r: int, c: int|
                    0 <= r < self.rows() && 0 <= c < self.cols() ==> call_requires(
                        function,
                        (#[trigger] self@[r][c],),
                    ),
                values@.len() == i,
                forall|r: int| 0 <= r < i ==> (#[trigger] values@[r])@.len() == self.cols(),
                forall|r: int, c: int|
                    0 <= r < i && 0 <= c < self.cols() ==> call_ensures(
                        function,
                        (self@[r][c],),
                        #[trigger] values@[r]@[c],
                    ),
            decreases self.rows - i,
        {
            let mut line: Vec<T> = Vec::with_capacity(self.cols);
            let mut j: usize = 0;
            while j < self.cols
                invariant
                    self.wf(),
                    i < self.rows(),
                    j <= self.cols(),
                    self.cols() == self.cols,
                    forall|r: int, c: int|
                        0 <= r < self.rows() && 0 <= c < self.cols() ==> call_requires(
                            function,
                            (#[trigger] self@[r][c],),
                        ),
                    line@.len() == j,
                    forall|c: int|
                        0 <= c < j ==> call_ensures(
                            function,
                            (self@[i as int][c],),
                            #[trigger] line@[c],
                        ),
                decreases self.cols - j,
            {
                let x = self.cell(i, j);
                line.push(function(x));
                j += 1;
            }
            values.push(line);
            i += 1;
        }
        let m = Matrix { values, rows: self.rows, cols: self.cols };
        proof {
            m.lemma_view();
        }
        m
    }
}

impl<T: Copy> Clone for Matrix<T> {
    /// A deep copy: it shares nothing with `self`.
    fn clone(&self) -> (r: Self)
        ensures
            r@ == self@,
            r.rows() == self.rows(),
            r.cols() == self.cols(),
    {
        let mut values: Vec<Vec<T>> = Vec::with_capacity(self.values.len());
        let mut i: usize = 0;
        while i < self.values.len()
            invariant
                i <= self.values@.len(),
                values@.len() == i,
                forall|r: int| 0 <= r < i ==> (#[trigger] values@[r])@ == self.values@[r]@,
            decreases self.values@.len() - i,
        {
            let source = &self.values[i];
            let mut line: Vec<T> = Vec::with_capacity(source.len());
            let mut j: usize = 0;
            while j < source.len()
                invariant
                    j <= source@.len(),
                    line@.len() == j,
                    forall|c: int| 0 <= c < j ==> line@[c] == source@[c],
                decreases source@.len() - j,
            {
                line.push(source[j]);
                j += 1;
            }
            values.push(line);
            i += 1;
        }
        let m = Matrix { values, rows: self.rows, cols: self.cols };
        m
    }
}

impl<T: Scalar> Matrix<T> {
    /// The matrix product. Fails with `DimensionMismatch` unless `matrix`
    /// has as many columns as `matrix2` has rows.
    pub fn matrix_multiplication(matrix: &Matrix<T>, matrix2: &Matrix<T>) -> (r: Result<
        Matrix<T>,
        MatrixError,
    >)
        requires
            matrix.wf(),
            matrix2.wf(),
        ensures
            matrix.cols() == matrix2.rows() ==> r.is_ok() && r.unwrap().wf() && r.unwrap().rows()
                == matrix.rows() && r.unwrap().cols() == matrix2.cols() && r.unwrap()@
                == grid_product(matrix@, matrix2@),
            matrix.cols() != matrix2.rows() ==> r == Err::<Matrix<T>, MatrixError>(
                mismatch(matrix, matrix2),
            ),
    {
        if matrix.cols != matrix2.rows {
            return Err(matrix.mismatch_with(matrix2));
        }
        let rows = matrix.rows;
        let cols = matrix2.cols;
        let inner = matrix.cols;
        let mut values: Vec<Vec<T>> = Vec::with_capacity(rows);
        let mut i: usize = 0;
        while i < rows
            invariant
                matrix.wf(),
                matrix2.wf(),
                rows == matrix.rows(),
                cols == matrix2.cols(),
                inner == matrix.cols(),
                inner == matrix2.rows(),
                i <= rows,
                values@.len() == i,
                forall|r: int|
                    0 <= r < i ==> (#[trigger] values@[r])@ == grid_product(matrix@, matrix2@)[r],
            decreases rows - i,
        {
            let mut line: Vec<T> = Vec::with_capacity(cols);
            let mut j: usize = 0;
            while j < cols
                invariant
                    matrix.wf(),
                    matrix2.wf(),
                    rows == matrix.rows(),
                    cols == matrix2.cols(),
                    inner == matrix.cols(),
                    inner == matrix2.rows(),
                    i < rows,
                    j <= cols,
                    line@.len() == j,
                    forall|c: int|
                        0 <= c < j
                            ==> line@[c] == dot(matrix@, matrix2@, i as int, c, inner as nat),
                decreases cols - j,
            {
                let mut total = T::zero();
                let mut k: usize = 0;
                while k < inner
                    invariant
                        matrix.wf(),
                        matrix2.wf(),
                        rows == matrix.rows(),
                        cols == matrix2.cols(),
                        inner == matrix.cols(),
                        inner == matrix2.rows(),
                        i < rows,
                        j < cols,
                        k <= inner,
                        total == dot(matrix@, matrix2@, i as int, j as int, k as nat),
                    decreases inner - k,
                {
                    total = total.plus(matrix.cell(i, k).times(matrix2.cell(k, j)));
                    k += 1;
                }
                line.push(total);
                j += 1;
            }
            values.push(line);
            i += 1;
        }
        let m = Matrix { values, rows, cols };
        Ok(m)
    }

    /// The cellwise sum. Fails with `DimensionMismatch` unless both have one
    /// shape.
    pub fn matrix_addition(matrix: &Matrix<T>, matrix2: &Matrix<T>) -> (r: Result<
        Matrix<T>,
        MatrixError,
    >)
        requires
            matrix.wf(),
            matrix2.wf(),
        ensures
            shapes_agree(matrix, matrix2) ==> r.is_ok() && r.unwrap().wf() && shapes_agree(
                &r.unwrap(),
                matrix,
            ) && r.unwrap()@ == grid_sum(matrix@, matrix2@),
            !shapes_agree(matrix, matrix2) ==> r == Err::<Matrix<T>, MatrixError>(
                mismatch(matrix, matrix2),
            ),
    {
        if matrix.rows != matrix2.rows || matrix.cols != matrix2.cols {
            return Err(matrix.mismatch_with(matrix2));
        }
        let m = Matrix::zip(matrix, matrix2, Op::Plus);
        assert(m@ =~~= grid_sum(matrix@, matrix2@));
        Ok(m)
    }

    /// The cellwise difference. Fails with `DimensionMismatch` unless both
    /// have one shape.
    pub fn matrix_subtraction(matrix: &Matrix<T>, matrix2: &Matrix<T>) -> (r: Result<
        Matrix<T>,
        MatrixError,
    >)
        requires
            matrix.wf(),
            matrix2.wf(),
        ensures
            shapes_agree(matrix, matrix2) ==> r.is_ok() && r.unwrap().wf() && shapes_agree(
                &r.unwrap(),
                matrix,
            ) && r.unwrap()@ == grid_difference(matrix@, matrix2@),
            !shapes_agree(matrix, matrix2) ==> r == Err::<Matrix<T>, MatrixError>(
                mismatch(matrix, matrix2),
            ),
    {
        if matrix.rows != matrix2.rows || matrix.cols != matrix2.cols {
            return Err(matrix.mismatch_with(matrix2));
        }
        let m = Matrix::zip(matrix, matrix2, Op::Minus);
        assert(m@ =~~= grid_difference(matrix@, matrix2@));
        Ok(m)
    }

    /// The cellwise (Hadamard) product. Fails with `DimensionMismatch`
    /// unless both have one shape.
    pub fn matrix_component_multiplication(matrix: &Matrix<T>, matrix2: &Matrix<T>) -> (r: Result<
        Matrix<T>,
        MatrixError,
    >)
        requires
            matrix.wf(),
            matrix2.wf(),
        ensures
            shapes_agree(matrix, matrix2) ==> r.is_ok() && r.unwrap().wf() && shapes_agree(
                &r.unwrap(),
                matrix,
            ) && r.unwrap()@ == grid_hadamard(matrix@, matrix2@),
            !shapes_agree(matrix, matrix2) ==> r == Err::<Matrix<T>, MatrixError>(
                mismatch(matrix, matrix2),
            ),
    {
        if matrix.rows != matrix2.rows || matrix.cols != matrix2.cols {
            return Err(matrix.mismatch_with(matrix2));
        }
        let m = Matrix::zip(matrix, matrix2, Op::Times);
        assert(m@ =~~= grid_hadamard(matrix@, matrix2@));
        Ok(m)
    }

    /// The single row of `matrix2` added to every row of `matrix`. Fails
    /// with `DimensionMismatch` unless `matrix2` has one row, of the width
    /// of `matrix`.
    pub fn matrix_addition_filling_rows(matrix: &Matrix<T>, matrix2: &Matrix<T>) -> (r: Result<
        Matrix<T>,
        MatrixError,
    >)
        requires
            matrix.wf(),
            matrix2.wf(),
        ensures
            matrix2.rows() == 1 && matrix.cols() == matrix2.cols() ==> r.is_ok()
                && r.unwrap().wf() && shapes_agree(&r.unwrap(), matrix)
                && r.unwrap()@ == grid_add_row(matrix@, matrix2@),
            !(matrix2.rows() == 1 && matrix.cols() == matrix2.cols()) ==> r == Err::<
                Matrix<T>,
                MatrixError,
            >(mismatch(matrix, matrix2)),
    {
        if matrix2.rows != 1 || matrix.cols != matrix2.cols {
            return Err(matrix.mismatch_with(matrix2));
        }
        let bias = matrix2.stored_row(0);
        let mut values: Vec<Vec<T>> = Vec::with_capacity(matrix.rows);
        let mut i: usize = 0;
        while i < matrix.rows
            invariant
                matrix.wf(),
                matrix.rows() == matrix.rows,
                bias@ == matrix2@[0],
                bias@.len() == matrix.cols(),
                i <= matrix.rows(),
                values@.len() == i,
                forall|r: int|
                    0 <= r < i ==> (#[trigger] values@[r])@ == grid_add_row(matrix@, matrix2@)[r],
            decreases matrix.rows - i,
        {
            let line = zip_row(matrix.stored_row(i), bias, Op::Plus);
            values.push(line);
            i += 1;
        }
        let m = Matrix { values, rows: matrix.rows, cols: matrix.cols };
        Ok(m)
    }

    /// The single column of `matrix2` added to every column of `matrix`.
    /// Fails with `DimensionMismatch` unless `matrix2` has one column, of
    /// the height of `matrix`.
    pub fn matrix_addition_filling_cols(matrix: &Matrix<T>, matrix2: &Matrix<T>) -> (r: Result<
        Matrix<T>,
        MatrixError,
    >)
        requires
            matrix.wf(),
            matrix2.wf(),
        ensures
            matrix2.cols() == 1 && matrix.rows() == matrix2.rows() ==> r.is_ok()
                && r.unwrap().wf() && shapes_agree(&r.unwrap(), matrix)
                && r.unwrap()@ == grid_add_col(matrix@, matrix2@),
            !(matrix2.cols() == 1 && matrix.rows() == matrix2.rows()) ==> r == Err::<
                Matrix<T>,
                MatrixError,
            >(mismatch(matrix, matrix2)),
    {
        if matrix2.cols != 1 || matrix.rows != matrix2.rows {
            return Err(matrix.mismatch_with(matrix2));
        }
        let mut values: Vec<Vec<T>> = Vec::with_capacity(matrix.rows);
        let mut i: usize = 0;
        while i < matrix.rows
            invariant
                matrix.wf(),
                matrix2.wf(),
                matrix.rows() == matrix.rows,
                matrix2.cols() == 1,
                matrix.rows() == matrix2.rows(),
                i <= matrix.rows(),
                values@.len() == i,
                forall|r: int|
                    0 <= r < i ==> (#[trigger] values@[r])@ == grid_add_col(matrix@, matrix2@)[r],
            decreases matrix.rows - i,
        {
            let line = map_row(matrix.stored_row(i), matrix2.cell(i, 0), Op::Plus);
            values.push(line);
            i += 1;
        }
        let m = Matrix { values, rows: matrix.rows, cols: matrix.cols };
        Ok(m)
    }

    /// Every cell multiplied by `scalar`.
    pub fn scalar_multiplication(matrix: &Matrix<T>, scalar: T) -> (r: Matrix<T>)
        requires
            matrix.wf(),
        ensures
            r.wf(),
            r.rows() == matrix.rows(),
            r.cols() == matrix.cols(),
            r@ == grid_scale(matrix@, scalar),
    {
        let m = Matrix::map(matrix, scalar, Op::Times);
        assert(m@ =~~= grid_scale(matrix@, scalar));
        m
    }

    /// Every cell with `scalar` added.
    pub fn scalar_addition(matrix: Matrix<T>, scalar: T) -> (r: Matrix<T>)
        requires
            matrix.wf(),
        ensures
            r.wf(),
            r.rows() == matrix.rows(),
            r.cols() == matrix.cols(),
            r@ == grid_shift(matrix@, scalar),
    {
        let m = Matrix::map(&matrix, scalar, Op::Plus);
        assert(m@ =~~= grid_shift(matrix@, scalar));
        m
    }

    /// The matrix of one row that holds, for each column, the sum of its
    /// cells from the top row down.
    pub fn column_totals(&self) -> (r: Matrix<T>)
        requires
            self.wf(),
        ensures
            r.wf(),
            r.rows() == 1,
            r.cols() == self.cols(),
            r@ == grid_column_totals(self@),
    {
        let mut line: Vec<T> = Vec::with_capacity(self.cols);
        let mut j: usize = 0;
        while j < self.cols
            invariant
                self.wf(),
                self.cols() == self.cols,
                self.rows() == self.rows,
                j <= self.cols,
                line@.len() == j,
                forall|c: int|
                    0 <= c < j ==> line@[c] == column_total(self@, c, self.rows() as nat),
            decreases self.cols - j,
        {
            let mut total = T::zero();
            let mut i: usize = 0;
            while i < self.rows
                invariant
                    self.wf(),
                    self.cols() == self.cols,
                    self.rows() == self.rows,
                    j < self.cols,
                    i <= self.rows,
                    total == column_total(self@, j as int, i as nat),
                decreases self.rows - i,
            {
                total = total.plus(self.cell(i, j));
                i += 1;
            }
            line.push(total);
            j += 1;
        }
        assert(line@ =~= grid_column_totals(self@)[0]);
        let mut values: Vec<Vec<T>> = Vec::with_capacity(1);
        values.push(line);
        let m = Matrix { values, rows: 1, cols: self.cols };
        m
    }
}

impl<T: Scalar> Matrix<T> {
    /// Adds `matrix2` to the receiver cell by cell, in place. Fails with
    /// `DimensionMismatch`, and changes nothing, unless both have one shape.
    pub fn matrix_addition_mut(&mut self, matrix2: &Matrix<T>) -> (r: Result<(), MatrixError>)
        requires
            old(self).wf(),
            matrix2.wf(),
        ensures
            final(self).wf(),
            final(self).rows() == old(self).rows(),
            final(self).cols() == old(self).cols(),
            shapes_agree(old(self), matrix2) ==> r.is_ok() && final(self)@ == grid_sum(
                old(self)@,
                matrix2@,
            ),
            !shapes_agree(old(self), matrix2) ==> r == Err::<(), MatrixError>(
                mismatch(old(self), matrix2),
            ) && *final(self) == *old(self),
    {
        if self.rows != matrix2.rows || self.cols != matrix2.cols {
            return Err(self.mismatch_with(matrix2));
        }
        self.zip_in_place(matrix2, Op::Plus);
        assert(self@ =~~= grid_sum(old(self)@, matrix2@));
        Ok(())
    }

    /// Subtracts `matrix2` from the receiver cell by cell, in place. Fails
    /// with `DimensionMismatch`, and changes nothing, unless both have one
    /// shape.
    pub fn matrix_subtraction_mut(&mut self, matrix2: &Matrix<T>) -> (r: Result<(), MatrixError>)
        requires
            old(self).wf(),
            matrix2.wf(),
        ensures
            final(self).wf(),
            final(self).rows() == old(self).rows(),
            final(self).cols() == old(self).cols(),
            shapes_agree(old(self), matrix2) ==> r.is_ok() && final(self)@ == grid_difference(
                old(self)@,
                matrix2@,
            ),
            !shapes_agree(old(self), matrix2) ==> r == Err::<(), MatrixError>(
                mismatch(old(self), matrix2),
            ) && *final(self) == *old(self),
    {
        if self.rows != matrix2.rows || self.cols != matrix2.cols {
            return Err(self.mismatch_with(matrix2));
        }
        self.zip_in_place(matrix2, Op::Minus);
        assert(self@ =~~= grid_difference(old(self)@, matrix2@));
        Ok(())
    }

    /// Multiplies the receiver by `matrix2` cell by cell, in place. Fails
    /// with `DimensionMismatch`, and changes nothing, unless both have one
    /// shape.
    pub fn matrix_component_multiplication_mut(&mut self, matrix2: &Matrix<T>) -> (r: Result<
        (),
        MatrixError,
    >)
        requires
            old(self).wf(),
            matrix2.wf(),
        ensures
            final(self).wf(),
            final(self).rows() == old(self).rows(),
            final(self).cols() == old(self).cols(),
            shapes_agree(old(self), matrix2) ==> r.is_ok() && final(self)@ == grid_hadamard(
                old(self)@,
                matrix2@,
            ),
            !shapes_agree(old(self), matrix2) ==> r == Err::<(), MatrixError>(
                mismatch(old(self), matrix2),
            ) && *final(self) == *old(self),
    {
        if self.rows != matrix2.rows || self.cols != matrix2.cols {
            return Err(self.mismatch_with(matrix2));
        }
        self.zip_in_place(matrix2, Op::Times);
        assert(self@ =~~= grid_hadamard(old(self)@, matrix2@));
        Ok(())
    }

    /// Multiplies every cell by `scalar`, in place.
    pub fn scalar_multiplication_mut(&mut self, scalar: T)
        requires
            old(self).wf(),
        ensures
            final(self).wf(),
            final(self).rows() == old(self).rows(),
            final(self).cols() == old(self).cols(),
            final(self)@ == grid_scale(old(self)@, scalar),
    {
        self.map_in_place(scalar, Op::Times);
        assert(self@ =~~= grid_scale(old(self)@, scalar));
    }
}

/// One of the three binary operations of a scalar.
#[derive(Clone, Copy)]
enum Op {
    Plus,
    Minus,
    Times,
}

impl Op {
    spec fn apply<T: Scalar>(self, x: T, y: T) -> T {
        match self {
            Op::Plus => x.plus_spec(y),
            Op::Minus => x.minus_spec(y),
            Op::Times => x.times_spec(y),
        }
    }

    fn run<T: Scalar>(self, x: T, y: T) -> (r: T)
        ensures
            r == self.apply(x, y),
    {
        match self {
            Op::Plus => x.plus(y),
            Op::Minus => x.minus(y),
            Op::Times => x.times(y),
        }
    }
}

/// The cellwise combination of two grids of one shape.
spec fn grid_zip<T: Scalar>(op: Op, a: Seq<Seq<T>>, b: Seq<Seq<T>>) -> Seq<Seq<T>> {
    Seq::new(a.len(), |i: int| Seq::new(a[i].len(), |j: int| op.apply(a[i][j], b[i][j])))
}

/// Every cell of a grid combined with one scalar on its right.
spec fn grid_map<T: Scalar>(op: Op, a: Seq<Seq<T>>, k: T) -> Seq<Seq<T>> {
    Seq::new(a.len(), |i: int| Seq::new(a[i].len(), |j: int| op.apply(a[i][j], k)))
}

impl<T: Scalar> Matrix<T> {
    /// The cellwise combination of two matrices of one shape.
    fn zip(a: &Matrix<T>, b: &Matrix<T>, op: Op) -> (r: Matrix<T>)
        requires
            a.wf(),
            b.wf(),
            a.rows() == b.rows(),
            a.cols() == b.cols(),
        ensures
            r.wf(),
            r.rows() == a.rows(),
            r.cols() == a.cols(),
            r@ == grid_zip(op, a@, b@),
    {
        let mut values: Vec<Vec<T>> = Vec::with_capacity(a.rows);
        let mut i: usize = 0;
        while i < a.rows
            invariant
                a.wf(),
                b.wf(),
                a.rows() == b.rows(),
                a.cols() == b.cols(),
                a.rows() == a.rows,
                i <= a.rows(),
                values@.len() == i,
                forall|r: int| 0 <= r < i ==> (#[trigger] values@[r])@ == grid_zip(op, a@, b@)[r],
            decreases a.rows - i,
        {
            let line = zip_row(a.stored_row(i), b.stored_row(i), op);
            values.push(line);
            i += 1;
        }
        let m = Matrix { values, rows: a.rows, cols: a.cols };
        m
    }

    /// Every cell of a matrix combined with one scalar on its right.
    fn map(a: &Matrix<T>, k: T, op: Op) -> (r: Matrix<T>)
        requires
            a.wf(),
        ensures
            r.wf(),
            r.rows() == a.rows(),
            r.cols() == a.cols(),
            r@ == grid_map(op, a@, k),
    {
        let mut values: Vec<Vec<T>> = Vec::with_capacity(a.rows);
        let mut i: usize = 0;
        while i < a.rows
            invariant
                a.wf(),
                a.rows() == a.rows,
                i <= a.rows(),
                values@.len() == i,
                forall|r: int| 0 <= r < i ==> (#[trigger] values@[r])@ == grid_map(op, a@, k)[r],
            decreases a.rows - i,
        {
            let line = map_row(a.stored_row(i), k, op);
            values.push(line);
            i += 1;
        }
        let m = Matrix { values, rows: a.rows, cols: a.cols };
        m
    }

    /// Replaces every cell by its combination with the cell of `b` in the
    /// same place.
    fn zip_in_place(&mut self, b: &Matrix<T>, op: Op)
        requires
            old(self).wf(),
            b.wf(),
            shapes_agree(old(self), b),
        ensures
            final(self).wf(),
            final(self).rows() == old(self).rows(),
            final(self).cols() == old(self).cols(),
            final(self)@ == grid_zip(op, old(self)@, b@),
    {
        proof {
            self.lemma_view();
        }
        let mut i: usize = 0;
        while i < self.rows
            invariant
                old(self).wf(),
                b.wf(),
                shapes_agree(old(self), b),
                self.rows == old(self).rows,
                self.cols == old(self).cols,
                self.rows == old(self).rows(),
                self.cols == old(self).cols(),
                self.values@.len() == self.rows,
                i <= self.rows,
                forall|r: int|
                    0 <= r < i ==> (#[trigger] self.values@[r])@ == grid_zip(op, old(self)@, b@)[r],
                forall|r: int|
                    i <= r < self.rows ==> (#[trigger] self.values@[r])@ == old(self)@[r],
            decreases self.rows - i,
        {
            let other = b.stored_row(i);
            zip_row_in_place(&mut self.values[i], other, op);
            i += 1;
        }
    }

    /// Replaces every cell by its combination with `k`, which stands on the
    /// right.
    fn map_in_place(&mut self, k: T, op: Op)
        requires
            old(self).wf(),
        ensures
            final(self).wf(),
            final(self).rows() == old(self).rows(),
            final(self).cols() == old(self).cols(),
            final(self)@ == grid_map(op, old(self)@, k),
    {
        proof {
            self.lemma_view();
        }
        let mut i: usize = 0;
        while i < self.rows
            invariant
                old(self).wf(),
                self.rows == old(self).rows,
                self.cols == old(self).cols,
                self.rows == old(self).rows(),
                self.cols == old(self).cols(),
                self.values@.len() == self.rows,
                i <= self.rows,
                forall|r: int|
                    0 <= r < i ==> (#[trigger] self.values@[r])@ == grid_map(op, old(self)@, k)[r],
                forall|r: int|
                    i <= r < self.rows ==> (#[trigger] self.values@[r])@ == old(self)@[r],
            decreases self.rows - i,
        {
            map_row_in_place(&mut self.values[i], k, op);
            i += 1;
        }
    }
}

/// Combines two rows of one length cell by cell.
fn zip_row<T: Scalar>(a: &Vec<T>, b: &Vec<T>, op: Op) -> (r: Vec<T>)
    requires
        a@.len() == b@.len(),
    ensures
        r@.len() == a@.len(),
        forall|j: int| 0 <= j < a@.len() ==> r@[j] == op.apply(a@[j], b@[j]),
{
    let mut r: Vec<T> = Vec::with_capacity(a.len());
    let mut j: usize = 0;
    while j < a.len()
        invariant
            a@.len() == b@.len(),
            j <= a@.len(),
            r@.len() == j,
            forall|c: int| 0 <= c < j ==> r@[c] == op.apply(a@[c], b@[c]),
        decreases a@.len() - j,
    {
        r.push(op.run(a[j], b[j]));
        j += 1;
    }
    r
}

/// Combines every cell of a row with one scalar, which stands on the right.
fn map_row<T: Scalar>(a: &Vec<T>, k: T, op: Op) -> (r: Vec<T>)
    ensures
        r@.len() == a@.len(),
        forall|j: int| 0 <= j < a@.len() ==> r@[j] == op.apply(a@[j], k),
{
    let mut r: Vec<T> = Vec::with_capacity(a.len());
    let mut j: usize = 0;
    while j < a.len()
        invariant
            j <= a@.len(),
            r@.len() == j,
            forall|c: int| 0 <= c < j ==> r@[c] == op.apply(a@[c], k),
        decreases a@.len() - j,
    {
        r.push(op.run(a[j], k));
        j += 1;
    }
    r
}

/// Replaces every cell of `a` by its combination with the cell of `b` in
/// the same place.
fn zip_row_in_place<T: Scalar>(a: &mut Vec<T>, b: &Vec<T>, op: Op)
    requires
        old(a)@.len() == b@.len(),
    ensures
        final(a)@.len() == old(a)@.len(),
        forall|j: int| 0 <= j < old(a)@.len() ==> final(a)@[j] == op.apply(old(a)@[j], b@[j]),
{
    let mut j: usize = 0;
    while j < a.len()
        invariant
            a@.len() == old(a)@.len(),
            a@.len() == b@.len(),
            j <= a@.len(),
            forall|c: int| 0 <= c < j ==> a@[c] == op.apply(old(a)@[c], b@[c]),
            forall|c: int| j <= c < a@.len() ==> a@[c] == old(a)@[c],
        decreases a@.len() - j,
    {
        let x = op.run(a[j], b[j]);
        a.set(j, x);
        j += 1;
    }
}

/// Replaces every cell of `a` by its combination with `k`, which stands on
/// the right.
fn map_row_in_place<T: Scalar>(a: &mut Vec<T>, k: T, op: Op)
    ensures
        final(a)@.len() == old(a)@.len(),
        forall|j: int| 0 <= j < old(a)@.len() ==> final(a)@[j] == op.apply(old(a)@[j], k),
{
    let mut j: usize = 0;
    while j < a.len()
        invariant
            a@.len() == old(a)@.len(),
            j <= a@.len(),
            forall|c: int| 0 <= c < j ==> a@[c] == op.apply(old(a)@[c], k),
            forall|c: int| j <= c < a@.len() ==> a@[c] == old(a)@[c],
        decreases a@.len() - j,
    {
        let x = op.run(a[j], k);
        a.set(j, x);
        j += 1;
    }
}

/// A row of `cols` cells, each `value`.
fn fill_row<T: Copy>(cols: usize, value: T) -> (r: Vec<T>)
    ensures
        r@ == Seq::new(cols as nat, |j: int| value),
{
    let mut r: Vec<T> = Vec::with_capacity(cols);
    let mut j: usize = 0;
    while j < cols
        invariant
            j <= cols,
            r@.len() == j,
            forall|c: int| 0 <= c < j ==> r@[c] == value,
        decreases cols - j,
    {
        r.push(value);
        j += 1;
    }
    r
}

} // verus!
