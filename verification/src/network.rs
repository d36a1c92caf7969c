//! A stack of layers: forward evaluation that keeps every intermediate
//! output, and one step of gradient descent from such a trace.
use vstd::prelude::*;
use crate::error::MatrixError;
use crate::gradient::{error_signal, local_gradient, stepped, stepped_layer};
use crate::layer::{is_layer_output, Layer, LayerView};
use crate::matrix::{cellwise_image, every_cell_in_range, mismatch, shapes_agree, Matrix};
use crate::random::RandomSource;
use crate::scalar::Scalar;

verus! {

/// A non-empty sequence of layers in which every layer has as many outputs
/// as the next has inputs.
#[derive(Debug)]
pub struct Network<T> {
    layers: Vec<Layer<T>>,
}

impl<T> View for Network<T> {
    type V = Seq<LayerView<T>>;

    closed spec fn view(&self) -> Seq<LayerView<T>> {
        Seq::new(self.layers@.len(), |i: int| self.layers@[i]@)
    }
}

/// The grids of a sequence of matrices.
pub open spec fn views<T>(matrices: Seq<Matrix<T>>) -> Seq<Seq<Seq<T>>> {
    Seq::new(matrices.len(), |i: int| matrices[i]@)
}

/// The first pair of adjacent sizes, from index `from` on, of which one is
/// zero.
pub open spec fn first_invalid(sizes: Seq<usize>, from: int) -> Option<(usize, usize)>
    decreases sizes.len() - from,
{
    if from < 1 || from >= sizes.len() {
        None
    } else if sizes[from - 1] == 0 || sizes[from] == 0 {
        Some((sizes[from - 1], sizes[from]))
    } else {
        first_invalid(sizes, from + 1)
    }
}

/// The first pair of adjacent layers, from index `from` on, of which the
/// first has not as many outputs as the second has inputs.
pub open spec fn first_unfit<T: Copy>(layers: Seq<Layer<T>>, from: int) -> Option<int>
    decreases layers.len() - from,
{
    if from < 0 || from + 1 >= layers.len() {
        None
    } else if layers[from].weights().cols() != layers[from + 1].weights().rows() {
        Some(from)
    } else {
        first_unfit(layers, from + 1)
    }
}

impl<T: Copy> Network<T> {
    /// The layers, from the input side to the output side.
    pub closed spec fn spec_layers(&self) -> &Vec<Layer<T>> {
        &self.layers
    }

    /// The invariant of the type.
    pub open spec fn wf(&self) -> bool {
        &&& self.layers()@.len() > 0
        &&& self@.len() == self.layers()@.len()
        &&& forall|i: int| 0 <= i < self.layers()@.len() ==> (#[trigger] self.layers()@[i]).wf()
        &&& forall|i: int|
            0 <= i < self.layers()@.len() ==> (#[trigger] self@[i]) == self.layers()@[i]@
        &&& forall|i: int|
            0 <= i < self.layers()@.len() - 1 ==> (#[trigger] self.layers()@[i]).weights().cols()
                == self.layers()@[i + 1].weights().rows()
    }

    /// The layers, from the input side to the output side.
    #[verifier::when_used_as_spec(spec_layers)]
    pub fn layers(&self) -> (r: &Vec<Layer<T>>)
        ensures
            r == self.spec_layers(),
    {
        &self.layers
    }

    /// The network of the given layers. Fails with `InvalidDimension` where
    /// there is no layer, and with `DimensionMismatch`, for the first pair
    /// that does not fit, where a layer has not as many outputs as the next
    /// has inputs.
    pub fn from_layers(layers: Vec<Layer<T>>) -> (r: Result<Network<T>, MatrixError>)
        requires
            forall|i: int| 0 <= i < layers@.len() ==> (#[trigger] layers@[i]).wf(),
        ensures
            layers@.len() == 0 ==> r == Err::<Network<T>, MatrixError>(
                MatrixError::InvalidDimension { rows: 0, cols: 0 },
            ),
            layers@.len() > 0 ==> match first_unfit(layers@, 0) {
                Some(i) => r == Err::<Network<T>, MatrixError>(
                    mismatch(layers@[i].weights(), layers@[i + 1].weights()),
                ),
                None => r.is_ok() && r.unwrap().wf() && r.unwrap().layers()@ == layers@,
            },
    {
        if layers.len() == 0 {
            return Err(MatrixError::InvalidDimension { rows: 0, cols: 0 });
        }
        let last: usize = layers.len() - 1;
        let mut i: usize = 0;
        while i < last
            invariant
                last == layers@.len() - 1,
                i <= last,
                forall|k: int| 0 <= k < layers@.len() ==> (#[trigger] layers@[k]).wf(),
                first_unfit(layers@, 0) == first_unfit(layers@, i as int),
                forall|k: int|
                    0 <= k < i ==> (#[trigger] layers@[k]).weights().cols() == layers@[k
                        + 1].weights().rows(),
            decreases layers@.len() - i,
        {
            let upper = layers[i].weights();
            let lower = layers[i + 1].weights();
            if upper.cols() != lower.rows() {
                return Err(
                    MatrixError::DimensionMismatch {
                        left_rows: upper.rows(),
                        left_cols: upper.cols(),
                        right_rows: lower.rows(),
                        right_cols: lower.cols(),
                    },
                );
            }
            i += 1;
        }
        Ok(Network { layers })
    }

    /// A network with a layer between each two adjacent sizes, drawn from
    /// `source` from the input side on. Fails with `InvalidDimension` where
    /// there are fewer than two sizes, the missing ones reported as zero, or
    /// where a size is zero, for the first pair that holds it.
    pub fn new<S: RandomSource<T>>(layer_sizes: &[usize], source: &mut S) -> (r: Result<
        Network<T>,
        MatrixError,
    >)
        ensures
            layer_sizes@.len() < 2 ==> r == Err::<Network<T>, MatrixError>(
                MatrixError::InvalidDimension {
                    rows: if layer_sizes@.len() == 1 { layer_sizes@[0] } else { 0 },
                    cols: 0,
                },
            ),
            layer_sizes@.len() >= 2 ==> match first_invalid(layer_sizes@, 1) {
                Some(pair) => r == Err::<Network<T>, MatrixError>(
                    MatrixError::InvalidDimension { rows: pair.0, cols: pair.1 },
                ),
                None => {
                    &&& r.is_ok()
                    &&& r.unwrap().wf()
                    &&& r.unwrap().layers()@.len() == layer_sizes@.len() - 1
                    &&& forall|i: int|
                        0 <= i < layer_sizes@.len() - 1 ==> {
                            let layer = #[trigger] r.unwrap().layers()@[i];
                            &&& layer.weights().rows() == layer_sizes@[i]
                            &&& layer.weights().cols() == layer_sizes@[i + 1]
                            &&& every_cell_in_range::<T, S>(layer@.weights)
                            &&& every_cell_in_range::<T, S>(layer@.biases)
                        }
                },
            },
    {
        if layer_sizes.len() < 2 {
            let rows: usize = if layer_sizes.len() == 1 { layer_sizes[0] } else { 0 };
            return Err(MatrixError::InvalidDimension { rows, cols: 0 });
        }
        let mut layers: Vec<Layer<T>> = Vec::new();
        let mut i: usize = 1;
        while i < layer_sizes.len()
            invariant
                1 <= i <= layer_sizes@.len(),
                layers@.len() == i - 1,
                first_invalid(layer_sizes@, 1) == first_invalid(layer_sizes@, i as int),
                forall|k: int|
                    0 <= k < i - 1 ==> {
                        let layer = #[trigger] layers@[k];
                        &&& layer.wf()
                        &&& layer.weights().rows() == layer_sizes@[k]
                        &&& layer.weights().cols() == layer_sizes@[k + 1]
                        &&& every_cell_in_range::<T, S>(layer@.weights)
                        &&& every_cell_in_range::<T, S>(layer@.biases)
                    },
            decreases layer_sizes@.len() - i,
        {
            match Layer::new(layer_sizes[i - 1], layer_sizes[i], source) {
                Ok(layer) => {
                    layers.push(layer);
                },
                Err(e) => {
                    return Err(e);
                },
            }
            i += 1;
        }
        let network = Network { layers };
        Ok(network)
    }
}

/// `trace` is what the network can give for `input` under `activation`: the
/// input itself, followed by an output of every layer for the entry before
/// it.
pub open spec fn is_trace<T: Scalar, F: Fn(T) -> T>(
    activation: &F,
    network: &Network<T>,
    input: &Matrix<T>,
    trace: Seq<Matrix<T>>,
) -> bool {
    &&& trace.len() == network.layers()@.len() + 1
    &&& trace[0] == *input
    &&& forall|l: int|
        0 <= l < trace.len() ==> (#[trigger] trace[l]).wf() && trace[l].rows() == input.rows()
    &&& forall|l: int|
        0 <= l < network.layers()@.len() ==> (#[trigger] trace[l + 1]).cols()
            == network.layers()@[l].weights().cols() && is_layer_output(
            activation,
            network@[l],
            trace[l]@,
            trace[l + 1]@,
        )
}

/// The shapes of `trace` and `expected` are those of a trace of this network
/// and of a target for it: an entry more than there are layers, every entry
/// with the rows of `expected`, the first as wide as the first layer's
/// input, each other as wide as the output of the layer it comes from, and
/// `expected` as wide as the last.
pub open spec fn trace_fits<T: Copy>(
    network: &Network<T>,
    trace: Seq<Matrix<T>>,
    expected: &Matrix<T>,
) -> bool {
    &&& trace.len() == network.layers()@.len() + 1
    &&& forall|l: int| 0 <= l < trace.len() ==> (#[trigger] trace[l]).rows() == expected.rows()
    &&& trace[0].cols() == network.layers()@[0].weights().rows()
    &&& forall|l: int|
        0 <= l < network.layers()@.len() ==> (#[trigger] trace[l + 1]).cols()
            == network.layers()@[l].weights().cols()
    &&& expected.cols() == trace[trace.len() - 1].cols()
}

/// There is a matrix of slopes for every layer, of the shape of that
/// layer's output in the trace.
pub open spec fn slopes_fit<T: Copy>(trace: Seq<Matrix<T>>, slopes: Seq<Matrix<T>>) -> bool {
    &&& slopes.len() + 1 == trace.len()
    &&& forall|l: int| 0 <= l < slopes.len() ==> shapes_agree(&#[trigger] slopes[l], &trace[l + 1])
}

/// Every matrix of the sequence is valid.
pub open spec fn all_wf<T: Copy>(matrices: Seq<Matrix<T>>) -> bool {
    forall|l: int| 0 <= l < matrices.len() ==> (#[trigger] matrices[l]).wf()
}

/// For every layer, `slopes` holds values that `derivative` can return for
/// the cells of that layer's output in the trace.
pub open spec fn is_slopes<T, F: Fn(T) -> T>(
    derivative: &F,
    trace: Seq<Seq<Seq<T>>>,
    slopes: Seq<Seq<Seq<T>>>,
) -> bool {
    &&& slopes.len() + 1 == trace.len()
    &&& forall|l: int|
        0 <= l < slopes.len() ==> cellwise_image(derivative, trace[l + 1], #[trigger] slopes[l])
}

impl<T: Scalar> Network<T> {
    /// The output of layer `index` for the batch `input`. Fails with
    /// `IndexOutOfRange` where there is no such layer, and with
    /// `DimensionMismatch` unless the batch has a column for every input of
    /// the layer.
    pub fn get_result_index<F: Fn(T) -> T>(
        &self,
        index: usize,
        input: &Matrix<T>,
        activation_function: &F,
    ) -> (r: Result<Matrix<T>, MatrixError>)
        requires
            self.wf(),
            input.wf(),
            forall|x: T| call_requires(activation_function, (x,)),
        ensures
            index >= self.layers()@.len() ==> r == Err::<Matrix<T>, MatrixError>(
                MatrixError::IndexOutOfRange { index, bound: self.layers()@.len() as usize },
            ),
            index < self.layers()@.len() ==> {
                let layer = self.layers()@[index as int];
                &&& input.cols() == layer.weights().rows() ==> r.is_ok() && r.unwrap().wf()
                    && r.unwrap().rows() == input.rows() && r.unwrap().cols()
                    == layer.weights().cols() && is_layer_output(
                    activation_function,
                    self@[index as int],
                    input@,
                    r.unwrap()@,
                )
                &&& input.cols() != layer.weights().rows() ==> r == Err::<Matrix<T>, MatrixError>(
                    mismatch(input, layer.weights()),
                )
            },
    {
        if index >= self.layers.len() {
            return Err(MatrixError::IndexOutOfRange { index, bound: self.layers.len() });
        }
        self.layers[index].get_result(input, activation_function)
    }

    /// The trace of `input`: the input, then the output of every layer in
    /// order, each computed from the entry before it. Fails with
    /// `DimensionMismatch` unless the input has a column for every input of
    /// the first layer.
    pub fn feedforward<F: Fn(T) -> T>(&self, input: Matrix<T>, activation_function: &F) -> (r:
        Result<Vec<Matrix<T>>, MatrixError>)
        requires
            self.wf(),
            input.wf(),
            forall|x: T| call_requires(activation_function, (x,)),
        ensures
            input.cols() == self.layers()@[0].weights().rows() ==> r.is_ok() && is_trace(
                activation_function,
                self,
                &input,
                r.unwrap()@,
            ),
            input.cols() != self.layers()@[0].weights().rows() ==> r == Err::<
                Vec<Matrix<T>>,
                MatrixError,
            >(mismatch(&input, self.layers()@[0].weights())),
    {
        let mut res: Vec<Matrix<T>> = Vec::with_capacity(self.layers.len());
        res.push(input);
        let mut i: usize = 0;
        while i < self.layers.len()
            invariant
                self.wf(),
                forall|x: T| call_requires(activation_function, (x,)),
                i <= self.layers()@.len(),
                res@.len() == i + 1,
                res@[0] == input,
                i > 0 ==> input.cols() == self.layers()@[0].weights().rows(),
                forall|l: int|
                    0 <= l <= i ==> (#[trigger] res@[l]).wf() && res@[l].rows() == input.rows(),
                forall|l: int|
                    0 <= l < i ==> (#[trigger] res@[l + 1]).cols()
                        == self.layers()@[l].weights().cols() && is_layer_output(
                        activation_function,
                        self@[l],
                        res@[l]@,
                        res@[l + 1]@,
                    ),
            decreases self.layers()@.len() - i,
        {
            assert(i > 0 ==> res@[(i - 1) + 1].cols() == self.layers()@[i - 1].weights().cols());
            let next = match self.layers[i].get_result(&res[i], activation_function) {
                Ok(m) => m,
                Err(e) => {
                    return Err(e);
                },
            };
            res.push(next);
            i += 1;
        }
        Ok(res)
    }

    /// Whether `result` and `expected` have the shapes of a trace of this
    /// network and of a target for it.
    pub fn fits(&self, result: &Vec<Matrix<T>>, expected: &Matrix<T>) -> (r: bool)
        requires
            self.wf(),
        ensures
            r == trace_fits(self, result@, expected),
    {
        let count = self.layers.len();
        if result.len() == 0 || result.len() - 1 != count {
            return false;
        }
        if result[0].cols() != self.layers[0].weights().rows() || result[0].rows()
            != expected.rows() {
            return false;
        }
        let mut l: usize = 0;
        while l < count
            invariant
                self.wf(),
                count == self.layers()@.len(),
                result@.len() == count + 1,
                l <= count,
                forall|k: int| 0 <= k <= l ==> (#[trigger] result@[k]).rows() == expected.rows(),
                forall|k: int|
                    0 <= k < l ==> (#[trigger] result@[k + 1]).cols()
                        == self.layers()@[k].weights().cols(),
            decreases count - l,
        {
            if result[l + 1].cols() != self.layers[l].weights().cols() || result[l + 1].rows()
                != expected.rows() {
                return false;
            }
            l += 1;
        }
        expected.cols() == result[count].cols()
    }

    /// Whether `slopes` holds a matrix for every layer, of the shape of that
    /// layer's output in `result`.
    pub fn slopes_fit_trace(result: &Vec<Matrix<T>>, slopes: &Vec<Matrix<T>>) -> (r: bool)
        ensures
            r == slopes_fit(result@, slopes@),
    {
        if result.len() == 0 || slopes.len() != result.len() - 1 {
            return false;
        }
        let mut l: usize = 0;
        while l < slopes.len()
            invariant
                slopes@.len() + 1 == result@.len(),
                l <= slopes@.len(),
                forall|k: int| 0 <= k < l ==> shapes_agree(&#[trigger] slopes@[k], &result@[k + 1]),
            decreases slopes@.len() - l,
        {
            if slopes[l].rows() != result[l + 1].rows()
                || slopes[l].cols() != result[l + 1].cols() {
                return false;
            }
            l += 1;
        }
        true
    }
}

impl<T: Scalar> Network<T> {
    /// One step of gradient descent from a trace, the target for its last
    /// entry, and the slope of the activation at every cell of every layer's
    /// output.
    ///
    /// From the last layer to the first: the error at the layer's output,
    /// times the slopes, is the local gradient; the transposed input times
    /// the local gradient is the gradient of the weights, and the column
    /// totals of the local gradient are that of the biases; the local
    /// gradient times the transposed weights, as they were before the step,
    /// is the error for the layer below. Both gradients are scaled by the
    /// learning rate over the number of rows of the batch and subtracted.
    pub fn backpropagate_with_slopes(
        &mut self,
        result: &Vec<Matrix<T>>,
        expected: &Matrix<T>,
        slopes: &Vec<Matrix<T>>,
        learning_rate: T,
    )
        requires
            old(self).wf(),
            expected.wf(),
            all_wf(result@),
            all_wf(slopes@),
            trace_fits(old(self), result@, expected),
            slopes_fit(result@, slopes@),
        ensures
            final(self).wf(),
            final(self).layers()@.len() == old(self).layers()@.len(),
            forall|l: int|
                0 <= l < old(self).layers()@.len() ==> shapes_agree(
                    (#[trigger] final(self).layers()@[l]).weights(),
                    old(self).layers()@[l].weights(),
                ),
            final(self)@ == stepped(
                old(self)@,
                views(result@),
                expected@,
                views(slopes@),
                learning_rate.ratio_spec(expected.rows()),
            ),
    {
        let count = self.layers.len();
        let step = learning_rate.ratio(expected.rows());
        let ghost before = self@;
        let ghost tr = views(result@);
        let ghost sl = views(slopes@);
        let ghost ex = expected@;
        assert(result@[(count - 1) + 1].cols() == old(self).layers()@[count - 1].weights().cols());
        let mut error = Matrix::matrix_subtraction(&result[count], expected).unwrap();
        let mut n: usize = count;
        while n > 0
            invariant
                old(self).wf(),
                expected.wf(),
                all_wf(result@),
                all_wf(slopes@),
                trace_fits(old(self), result@, expected),
                slopes_fit(result@, slopes@),
                before == old(self)@,
                tr == views(result@),
                sl == views(slopes@),
                ex == expected@,
                step == learning_rate.ratio_spec(expected.rows()),
                count == old(self).layers()@.len(),
                n <= count,
                self.layers@.len() == count,
                forall|k: int|
                    0 <= k < n ==> (#[trigger] self.layers@[k]) == old(self).layers()@[k],
                forall|k: int|
                    n <= k < count ==> (#[trigger] self.layers@[k]).wf() && shapes_agree(
                        self.layers@[k].weights(),
                        old(self).layers()@[k].weights(),
                    ) && self.layers@[k]@ == stepped_layer(before, tr, ex, sl, step, k),
                n > 0 ==> error.wf() && error.rows() == expected.rows() && error.cols()
                    == old(self).layers()@[n - 1].weights().cols() && error@ == error_signal(
                    before,
                    tr,
                    ex,
                    sl,
                    n - 1,
                ),
            decreases n,
        {
            let l: usize = n - 1;
            let local = Matrix::matrix_component_multiplication(&error, &slopes[l]).unwrap();
            assert(local@ == local_gradient(before, tr, ex, sl, l as int));
            let input = result[l].transpose();
            let mut weight_change = Matrix::matrix_multiplication(&input, &local).unwrap();
            weight_change.scalar_multiplication_mut(step);
            let mut bias_change = local.column_totals();
            bias_change.scalar_multiplication_mut(step);
            if l > 0 {
                let back = self.layers[l].weights().transpose();
                error = Matrix::matrix_multiplication(&local, &back).unwrap();
                assert(error@ == error_signal(before, tr, ex, sl, l - 1));
            }
            let outcome = self.layers[l].descend(&weight_change, &bias_change);
            n = l;
        }
    }

    /// One step of gradient descent from a trace and the target for its
    /// last entry. The slopes are what `derivative_activation_function`
    /// returns for the cells of every layer's output; the step is then that
    /// of `backpropagate_with_slopes`.
    pub fn backpropagate<F: Fn(T) -> T>(
        &mut self,
        result: &Vec<Matrix<T>>,
        expected: Matrix<T>,
        derivative_activation_function: &F,
        learning_rate: T,
    )
        requires
            old(self).wf(),
            expected.wf(),
            all_wf(result@),
            trace_fits(old(self), result@, &expected),
            forall|x: T| call_requires(derivative_activation_function, (x,)),
        ensures
            final(self).wf(),
            final(self).layers()@.len() == old(self).layers()@.len(),
            forall|l: int|
                0 <= l < old(self).layers()@.len() ==> shapes_agree(
                    (#[trigger] final(self).layers()@[l]).weights(),
                    old(self).layers()@[l].weights(),
                ),
            exists|slopes: Seq<Seq<Seq<T>>>|
                is_slopes(derivative_activation_function, views(result@), slopes)
                    && #[trigger] stepped(
                    old(self)@,
                    views(result@),
                    expected@,
                    slopes,
                    learning_rate.ratio_spec(expected.rows()),
                ) == final(self)@,
    {
        let count = self.layers.len();
        let mut slopes: Vec<Matrix<T>> = Vec::with_capacity(count);
        let mut l: usize = 0;
        while l < count
            invariant
                old(self).wf(),
                all_wf(result@),
                trace_fits(old(self), result@, &expected),
                forall|x: T| call_requires(derivative_activation_function, (x,)),
                count == old(self).layers()@.len(),
                l <= count,
                slopes@.len() == l,
                forall|k: int|
                    0 <= k < l ==> (#[trigger] slopes@[k]).wf() && shapes_agree(
                        &slopes@[k],
                        &result@[k + 1],
                    ) && cellwise_image(
                        derivative_activation_function,
                        result@[k + 1]@,
                        slopes@[k]@,
                    ),
            decreases count - l,
        {
            slopes.push(result[l + 1].apply_function(derivative_activation_function));
            l += 1;
        }
        self.backpropagate_with_slopes(result, &expected, &slopes, learning_rate);
    }
}

impl<T: Copy> Clone for Network<T> {
    /// A deep copy: it shares nothing with `self`.
    fn clone(&self) -> (r: Self)
        ensures
            r@ == self@,
            self.wf() ==> r.wf(),
            r.layers()@.len() == self.layers()@.len(),
            forall|l: int|
                0 <= l < self.layers()@.len() ==> shapes_agree(
                    (#[trigger] r.layers()@[l]).weights(),
                    self.layers()@[l].weights(),
                ),
    {
        let mut layers: Vec<Layer<T>> = Vec::with_capacity(self.layers.len());
        let mut l: usize = 0;
        while l < self.layers.len()
            invariant
                l <= self.layers@.len(),
                layers@.len() == l,
                forall|k: int|
                    0 <= k < l ==> {
                        let copy = #[trigger] layers@[k];
                        &&& copy@ == self.layers@[k]@
                        &&& copy.weights()@ == self.layers@[k].weights()@
                        &&& copy.biases()@ == self.layers@[k].biases()@
                        &&& shapes_agree(copy.weights(), self.layers@[k].weights())
                        &&& shapes_agree(copy.biases(), self.layers@[k].biases())
                    },
            decreases self.layers@.len() - l,
        {
            layers.push(self.layers[l].clone());
            l += 1;
        }
        let r = Network { layers };
        r
    }
}

} // verus!
