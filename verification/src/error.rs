//! The ways in which a matrix operation can refuse its operands.
use vstd::prelude::*;

verus! {

/// Why an operation on matrices failed. Each variant carries the offending
/// dimensions.
#[derive(Clone, Copy, Debug, PartialEq, Eq, Structural)]
pub enum MatrixError {
    /// A constructor was given a zero dimension, or rows of differing length.
    /// `rows` and `cols` are the row count and the length of the first row
    /// (zero where there is no first row).
    InvalidDimension { rows: usize, cols: usize },
    /// A binary operation was given operands whose shapes do not fit it.
    DimensionMismatch { left_rows: usize, left_cols: usize, right_rows: usize, right_cols: usize },
    /// A row or column was asked for at an index that is not below `bound`.
    IndexOutOfRange { index: usize, bound: usize },
}

} // verus!
