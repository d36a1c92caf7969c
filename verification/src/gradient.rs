//! The mathematical model of one step of gradient descent through a stack
//! of layers.
//!
//! A trace is the input batch followed by the output of every layer. The
//! slopes are, for every layer, the derivative of the activation at each
//! cell of that layer's output. The gradients of a batch are divided by the
//! number of its rows before they are applied: the step handed to these
//! functions is the learning rate over the batch size, and it scales the
//! gradients of weights and biases alike.
use vstd::prelude::*;
use crate::grid::{
    grid_column_totals, grid_difference, grid_hadamard, grid_product, grid_scale, grid_transpose,
};
use crate::layer::LayerView;
use crate::scalar::Scalar;

verus! {

/// The error that reaches the output of layer `l`. For the last layer it is
/// the final output less the expected one. For any other it is the local
/// gradient of the layer above, sent back through that layer's weights as
/// they were before the step.
pub open spec fn error_signal<T: Scalar>(
    layers: Seq<LayerView<T>>,
    trace: Seq<Seq<Seq<T>>>,
    expected: Seq<Seq<T>>,
    slopes: Seq<Seq<Seq<T>>>,
    l: int,
) -> Seq<Seq<T>>
    decreases layers.len() - l,
{
    if l >= layers.len() - 1 {
        grid_difference(trace[layers.len() as int], expected)
    } else {
        grid_product(
            grid_hadamard(error_signal(layers, trace, expected, slopes, l + 1), slopes[l + 1]),
            grid_transpose(layers[l + 1].weights),
        )
    }
}

/// The gradient of the loss by the weighted sums of layer `l`: the error at
/// its output times the slope of the activation there, cell by cell.
pub open spec fn local_gradient<T: Scalar>(
    layers: Seq<LayerView<T>>,
    trace: Seq<Seq<Seq<T>>>,
    expected: Seq<Seq<T>>,
    slopes: Seq<Seq<Seq<T>>>,
    l: int,
) -> Seq<Seq<T>> {
    grid_hadamard(error_signal(layers, trace, expected, slopes, l), slopes[l])
}

/// What is subtracted from the weights of layer `l`: the product of the
/// layer's transposed input and its local gradient, scaled by `step`.
pub open spec fn weight_step<T: Scalar>(
    layers: Seq<LayerView<T>>,
    trace: Seq<Seq<Seq<T>>>,
    expected: Seq<Seq<T>>,
    slopes: Seq<Seq<Seq<T>>>,
    step: T,
    l: int,
) -> Seq<Seq<T>> {
    grid_scale(
        grid_product(grid_transpose(trace[l]), local_gradient(layers, trace, expected, slopes, l)),
        step,
    )
}

/// What is subtracted from the biases of layer `l`: the column totals of
/// its local gradient, scaled by `step`.
pub open spec fn bias_step<T: Scalar>(
    layers: Seq<LayerView<T>>,
    trace: Seq<Seq<Seq<T>>>,
    expected: Seq<Seq<T>>,
    slopes: Seq<Seq<Seq<T>>>,
    step: T,
    l: int,
) -> Seq<Seq<T>> {
    grid_scale(grid_column_totals(local_gradient(layers, trace, expected, slopes, l)), step)
}

/// Layer `l` after the step.
pub open spec fn stepped_layer<T: Scalar>(
    layers: Seq<LayerView<T>>,
    trace: Seq<Seq<Seq<T>>>,
    expected: Seq<Seq<T>>,
    slopes: Seq<Seq<Seq<T>>>,
    step: T,
    l: int,
) -> LayerView<T> {
    LayerView {
        weights: grid_difference(
            layers[l].weights,
            weight_step(layers, trace, expected, slopes, step, l),
        ),
        biases: grid_difference(
            layers[l].biases,
            bias_step(layers, trace, expected, slopes, step, l),
        ),
    }
}

/// Every layer after the step.
pub open spec fn stepped<T: Scalar>(
    layers: Seq<LayerView<T>>,
    trace: Seq<Seq<Seq<T>>>,
    expected: Seq<Seq<T>>,
    slopes: Seq<Seq<Seq<T>>>,
    step: T,
) -> Seq<LayerView<T>> {
    Seq::new(layers.len(), |l: int| stepped_layer(layers, trace, expected, slopes, step, l))
}

} // verus!
