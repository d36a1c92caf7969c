//! One fully-connected layer: an affine transform of a batch of rows,
//! followed by an activation applied to every cell.
//!
//! A batch is a matrix with one example per row. The weights have one row
//! per input and one column per output, and the biases are a single row that
//! is added to every row of the batch.
use vstd::prelude::*;
use crate::error::MatrixError;
use crate::grid::{grid_add_row, grid_difference, grid_product};
use crate::matrix::{cellwise_image, every_cell_in_range, mismatch, shapes_agree, Matrix};
use crate::random::RandomSource;
use crate::scalar::Scalar;

verus! {

/// The weights and the biases of a layer, as grids.
pub struct LayerView<T> {
    pub weights: Seq<Seq<T>>,
    pub biases: Seq<Seq<T>>,
}

/// A layer with `weights.rows()` inputs and `weights.cols()` outputs.
#[derive(Debug)]
pub struct Layer<T> {
    weights: Matrix<T>,
    biases: Matrix<T>,
}

impl<T> View for Layer<T> {
    type V = LayerView<T>;

    closed spec fn view(&self) -> LayerView<T> {
        LayerView { weights: self.weights@, biases: self.biases@ }
    }
}

/// The weighted sums of a layer for a batch, before the activation.
pub open spec fn weighted_sums<T: Scalar>(layer: LayerView<T>, input: Seq<Seq<T>>) -> Seq<Seq<T>> {
    grid_add_row(grid_product(input, layer.weights), layer.biases)
}

/// `output` is what the layer can give for `input` under `activation`: each
/// cell is a value that the activation can return for the weighted sum in
/// the same place.
pub open spec fn is_layer_output<T: Scalar, F: Fn(T) -> T>(
    activation: &F,
    layer: LayerView<T>,
    input: Seq<Seq<T>>,
    output: Seq<Seq<T>>,
) -> bool {
    cellwise_image(activation, weighted_sums(layer, input), output)
}

impl<T: Copy> Layer<T> {
    /// The weights.
    pub closed spec fn spec_weights(&self) -> &Matrix<T> {
        &self.weights
    }

    /// The biases.
    pub closed spec fn spec_biases(&self) -> &Matrix<T> {
        &self.biases
    }

    /// The invariant of the type: both matrices are valid, the biases are a
    /// single row, and that row has a cell for every column of the weights.
    pub open spec fn wf(&self) -> bool {
        &&& self.weights().wf()
        &&& self.biases().wf()
        &&& self.biases().rows() == 1
        &&& self.biases().cols() == self.weights().cols()
        &&& self@.weights == self.weights()@
        &&& self@.biases == self.biases()@
    }

    /// The weights: one row per input, one column per output.
    #[verifier::when_used_as_spec(spec_weights)]
    pub fn weights(&self) -> (r: &Matrix<T>)
        ensures
            r == self.spec_weights(),
    {
        &self.weights
    }

    /// The biases: one row, with a cell per output.
    #[verifier::when_used_as_spec(spec_biases)]
    pub fn biases(&self) -> (r: &Matrix<T>)
        ensures
            r == self.spec_biases(),
    {
        &self.biases
    }

    /// The layer with the given weights and biases. Fails with
    /// `DimensionMismatch` unless the biases are one row with a cell for
    /// every column of the weights.
    pub fn from_parts(weights: Matrix<T>, biases: Matrix<T>) -> (r: Result<Layer<T>, MatrixError>)
        requires
            weights.wf(),
            biases.wf(),
        ensures
            biases.rows() == 1 && biases.cols() == weights.cols() ==> r.is_ok() && r.unwrap().wf()
                && *r.unwrap().weights() == weights && *r.unwrap().biases() == biases,
            !(biases.rows() == 1 && biases.cols() == weights.cols()) ==> r == Err::<
                Layer<T>,
                MatrixError,
            >(mismatch(&weights, &biases)),
    {
        if biases.rows() != 1 || biases.cols() != weights.cols() {
            return Err(
                MatrixError::DimensionMismatch {
                    left_rows: weights.rows(),
                    left_cols: weights.cols(),
                    right_rows: biases.rows(),
                    right_cols: biases.cols(),
                },
            );
        }
        Ok(Layer { weights, biases })
    }

    /// A layer of `input_count` inputs and `output_count` outputs whose
    /// weights and biases are drawn from `source`, the weights first. Fails
    /// with `InvalidDimension` where either count is zero.
    pub fn new<S: RandomSource<T>>(input_count: usize, output_count: usize, source: &mut S) -> (r:
        Result<Layer<T>, MatrixError>)
        ensures
            input_count == 0 || output_count == 0 ==> r == Err::<Layer<T>, MatrixError>(
                MatrixError::InvalidDimension { rows: input_count, cols: output_count },
            ),
            input_count > 0 && output_count > 0 ==> r.is_ok() && r.unwrap().wf()
                && r.unwrap().weights().rows() == input_count && r.unwrap().weights().cols()
                == output_count && every_cell_in_range::<T, S>(r.unwrap()@.weights)
                && every_cell_in_range::<T, S>(r.unwrap()@.biases),
    {
        let weights = match Matrix::new_random(input_count, output_count, source) {
            Ok(m) => m,
            Err(e) => {
                return Err(e);
            },
        };
        let biases = match Matrix::new_random(1, output_count, source) {
            Ok(m) => m,
            Err(e) => {
                return Err(e);
            },
        };
        Ok(Layer { weights, biases })
    }
}

impl<T: Scalar> Layer<T> {
    /// The output of the layer for a batch: the product of the batch and
    /// the weights, with the biases added to every row and the activation
    /// applied to every cell. Fails with `DimensionMismatch` unless the
    /// batch has a column for every row of the weights.
    pub fn get_result<F: Fn(T) -> T>(&self, input: &Matrix<T>, activation_function: &F) -> (r:
        Result<Matrix<T>, MatrixError>)
        requires
            self.wf(),
            input.wf(),
            forall|x: T| call_requires(activation_function, (x,)),
        ensures
            input.cols() == self.weights().rows() ==> r.is_ok() && r.unwrap().wf()
                && r.unwrap().rows() == input.rows() && r.unwrap().cols() == self.weights().cols()
                && is_layer_output(activation_function, self@, input@, r.unwrap()@),
            input.cols() != self.weights().rows() ==> r == Err::<Matrix<T>, MatrixError>(
                mismatch(input, self.weights()),
            ),
    {
        let product = match Matrix::matrix_multiplication(input, &self.weights) {
            Ok(m) => m,
            Err(e) => {
                return Err(e);
            },
        };
        let sums = match Matrix::matrix_addition_filling_rows(&product, &self.biases) {
            Ok(m) => m,
            Err(e) => {
                return Err(e);
            },
        };
        Ok(sums.apply_function(activation_function))
    }

    /// One step of descent: subtracts `weight_step` from the weights and
    /// `bias_step` from the biases, in place. Fails with
    /// `DimensionMismatch`, and changes nothing, unless each step has the
    /// shape of what it is subtracted from.
    pub fn descend(&mut self, weight_step: &Matrix<T>, bias_step: &Matrix<T>) -> (r: Result<
        (),
        MatrixError,
    >)
        requires
            old(self).wf(),
            weight_step.wf(),
            bias_step.wf(),
        ensures
            final(self).wf(),
            final(self).weights().rows() == old(self).weights().rows(),
            final(self).weights().cols() == old(self).weights().cols(),
            match r {
                Ok(_) => {
                    &&& shapes_agree(old(self).weights(), weight_step)
                    &&& shapes_agree(old(self).biases(), bias_step)
                    &&& final(self)@.weights == grid_difference(old(self)@.weights, weight_step@)
                    &&& final(self)@.biases == grid_difference(old(self)@.biases, bias_step@)
                },
                Err(e) => {
                    &&& *final(self) == *old(self)
                    &&& if !shapes_agree(old(self).weights(), weight_step) {
                        e == mismatch(old(self).weights(), weight_step)
                    } else {
                        !shapes_agree(old(self).biases(), bias_step) && e == mismatch(
                            old(self).biases(),
                            bias_step,
                        )
                    }
                },
            },
    {
        if self.biases.rows() != bias_step.rows() || self.biases.cols() != bias_step.cols() {
            if self.weights.rows() != weight_step.rows() || self.weights.cols()
                != weight_step.cols() {
                return Err(
                    MatrixError::DimensionMismatch {
                        left_rows: self.weights.rows(),
                        left_cols: self.weights.cols(),
                        right_rows: weight_step.rows(),
                        right_cols: weight_step.cols(),
                    },
                );
            }
            return Err(
                MatrixError::DimensionMismatch {
                    left_rows: self.biases.rows(),
                    left_cols: self.biases.cols(),
                    right_rows: bias_step.rows(),
                    right_cols: bias_step.cols(),
                },
            );
        }
        match self.weights.matrix_subtraction_mut(weight_step) {
            Ok(_) => {},
            Err(e) => {
                return Err(e);
            },
        }
        let second = self.biases.matrix_subtraction_mut(bias_step);
        second
    }
}

impl<T: Copy> Clone for Layer<T> {
    /// A deep copy: it shares nothing with `self`.
    fn clone(&self) -> (r: Self)
        ensures
            r@ == self@,
            r.weights()@ == self.weights()@,
            r.biases()@ == self.biases()@,
            shapes_agree(r.weights(), self.weights()),
            shapes_agree(r.biases(), self.biases()),
    {
        Layer { weights: self.weights.clone(), biases: self.biases.clone() }
    }
}

} // verus!
