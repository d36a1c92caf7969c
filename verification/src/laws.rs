//! Algebraic laws of the matrix arithmetic and of the descent step, for
//! scalars whose arithmetic is exact.
use vstd::prelude::*;
use crate::gradient::{bias_step, error_signal, stepped, stepped_layer, weight_step};
use crate::grid::{
    dot, grid_identity, grid_product, grid_sum, grid_transpose, is_grid, same_shape,
};
use crate::layer::LayerView;
use crate::matrix::Matrix;
use crate::network::{is_trace, Network};
use crate::scalar::{ExactScalar, Scalar};

verus! {

/// Addition of matrices of one shape is commutative.
pub proof fn lemma_addition_commutes<T: ExactScalar>(a: Seq<Seq<T>>, b: Seq<Seq<T>>)
    requires
        same_shape(a, b),
    ensures
        grid_sum(a, b) == grid_sum(b, a),
{
    assert forall|i: int, j: int| 0 <= i < a.len() && 0 <= j < a[i].len() implies grid_sum(
        a,
        b,
    )[i][j] == grid_sum(b, a)[i][j] by {
        T::plus_commutes(a[i][j], b[i][j]);
    }
    assert(grid_sum(a, b) =~~= grid_sum(b, a));
}

/// Addition of matrices of one shape is associative.
pub proof fn lemma_addition_associates<T: ExactScalar>(
    a: Seq<Seq<T>>,
    b: Seq<Seq<T>>,
    c: Seq<Seq<T>>,
)
    requires
        same_shape(a, b),
        same_shape(b, c),
    ensures
        grid_sum(grid_sum(a, b), c) == grid_sum(a, grid_sum(b, c)),
{
    assert forall|i: int, j: int| 0 <= i < a.len() && 0 <= j < a[i].len() implies grid_sum(
        grid_sum(a, b),
        c,
    )[i][j] == grid_sum(a, grid_sum(b, c))[i][j] by {
        T::plus_associates(a[i][j], b[i][j], c[i][j]);
    }
    assert(grid_sum(grid_sum(a, b), c) =~~= grid_sum(a, grid_sum(b, c)));
}

/// The transpose of the transpose of a matrix is the matrix. This holds of
/// every scalar type.
pub proof fn lemma_transpose_is_an_involution<T>(a: Seq<Seq<T>>, rows: nat, cols: nat)
    requires
        is_grid(a, rows, cols),
    ensures
        is_grid(grid_transpose(a), cols, rows),
        grid_transpose(grid_transpose(a)) == a,
{
    let t = grid_transpose(a);
    assert(grid_transpose(t) =~~= a);
}

/// The first `k` terms of the dot product of a row with a column of the
/// identity: zero until the diagonal is reached, the row's cell on the
/// diagonal from there on.
proof fn lemma_dot_with_identity<T: ExactScalar>(a: Seq<Seq<T>>, n: nat, i: int, j: int, k: nat)
    requires
        0 <= i < a.len(),
        a[i].len() == n,
        0 <= j < n,
        k <= n,
    ensures
        dot(a, grid_identity::<T>(n), i, j, k) == (if k <= j {
            T::zero_spec()
        } else {
            a[i][j]
        }),
    decreases k,
{
    if k > 0 {
        lemma_dot_with_identity(a, n, i, j, (k - 1) as nat);
        let id = grid_identity::<T>(n);
        let before = dot(a, id, i, j, (k - 1) as nat);
        if k - 1 == j {
            T::times_one(a[i][k - 1]);
            T::plus_zero(a[i][j]);
        } else {
            T::times_zero(a[i][k - 1]);
            T::plus_zero(before);
        }
    }
}

/// The product of a matrix with the identity of its width is the matrix.
pub proof fn lemma_identity_is_a_right_unit<T: ExactScalar>(a: Seq<Seq<T>>, rows: nat, cols: nat)
    requires
        is_grid(a, rows, cols),
    ensures
        grid_product(a, grid_identity::<T>(cols)) == a,
{
    let id = grid_identity::<T>(cols);
    let p = grid_product(a, id);
    assert forall|i: int, j: int| 0 <= i < rows && 0 <= j < cols implies p[i][j] == a[i][j] by {
        lemma_dot_with_identity(a, cols, i, j, cols);
    }
    assert(p =~~= a);
}

/// A product has the rows of its left factor and the columns of its right
/// one.
pub proof fn lemma_product_shape<T: Scalar>(
    a: Seq<Seq<T>>,
    b: Seq<Seq<T>>,
    m: nat,
    k: nat,
    n: nat,
)
    requires
        is_grid(a, m, k),
        is_grid(b, k, n),
    ensures
        is_grid(grid_product(a, b), m, n),
{
}

/// A step changes every weight whose scaled gradient is not zero.
pub proof fn lemma_step_moves_weight<T: ExactScalar>(
    layers: Seq<LayerView<T>>,
    trace: Seq<Seq<Seq<T>>>,
    expected: Seq<Seq<T>>,
    slopes: Seq<Seq<Seq<T>>>,
    step: T,
    l: int,
    i: int,
    j: int,
)
    requires
        0 <= l < layers.len(),
        0 <= i < layers[l].weights.len(),
        0 <= j < layers[l].weights[i].len(),
        weight_step(layers, trace, expected, slopes, step, l)[i][j] != T::zero_spec(),
    ensures
        stepped(layers, trace, expected, slopes, step)[l].weights[i][j] != layers[l].weights[i][j],
{
    let after = stepped_layer(layers, trace, expected, slopes, step, l);
    let w = layers[l].weights[i][j];
    let g = weight_step(layers, trace, expected, slopes, step, l)[i][j];
    if after.weights[i][j] == w {
        T::minus_fixes_only_zero(w, g);
    }
}

/// A step changes every bias whose scaled gradient is not zero.
pub proof fn lemma_step_moves_bias<T: ExactScalar>(
    layers: Seq<LayerView<T>>,
    trace: Seq<Seq<Seq<T>>>,
    expected: Seq<Seq<T>>,
    slopes: Seq<Seq<Seq<T>>>,
    step: T,
    l: int,
    j: int,
)
    requires
        0 <= l < layers.len(),
        layers[l].biases.len() > 0,
        0 <= j < layers[l].biases[0].len(),
        bias_step(layers, trace, expected, slopes, step, l)[0][j] != T::zero_spec(),
    ensures
        stepped(layers, trace, expected, slopes, step)[l].biases[0][j] != layers[l].biases[0][j],
{
    let after = stepped_layer(layers, trace, expected, slopes, step, l);
    let b = layers[l].biases[0][j];
    let g = bias_step(layers, trace, expected, slopes, step, l)[0][j];
    if after.biases[0][j] == b {
        T::minus_fixes_only_zero(b, g);
    }
}

/// What a step subtracts from the last layer does not depend on the
/// parameters: a second step from the same trace, target and slopes moves
/// the last layer by the same amounts as the first.
pub proof fn lemma_last_layer_step_is_repeated<T: ExactScalar>(
    layers: Seq<LayerView<T>>,
    trace: Seq<Seq<Seq<T>>>,
    expected: Seq<Seq<T>>,
    slopes: Seq<Seq<Seq<T>>>,
    step: T,
)
    requires
        layers.len() > 0,
    ensures
        ({
            let once = stepped(layers, trace, expected, slopes, step);
            let last = layers.len() - 1;
            &&& once.len() == layers.len()
            &&& weight_step(once, trace, expected, slopes, step, last) == weight_step(
                layers,
                trace,
                expected,
                slopes,
                step,
                last,
            )
            &&& bias_step(once, trace, expected, slopes, step, last) == bias_step(
                layers,
                trace,
                expected,
                slopes,
                step,
                last,
            )
        }),
{
    let once = stepped(layers, trace, expected, slopes, step);
    let last = layers.len() - 1;
    assert(error_signal(once, trace, expected, slopes, last) == error_signal(
        layers,
        trace,
        expected,
        slopes,
        last,
    ));
}

/// A trace of a network built for the sizes `sizes` has an entry for every
/// size, and every entry has the rows of the input and as many columns as
/// the size in its place. So the last entry has the rows of the input and
/// the last size as its columns.
pub proof fn lemma_trace_follows_sizes<T: Scalar, F: Fn(T) -> T>(
    activation: &F,
    network: &Network<T>,
    sizes: Seq<usize>,
    input: &Matrix<T>,
    trace: Seq<Matrix<T>>,
)
    requires
        sizes.len() >= 2,
        network.layers()@.len() == sizes.len() - 1,
        forall|i: int|
            0 <= i < sizes.len() - 1 ==> (#[trigger] network.layers()@[i]).weights().rows()
                == sizes[i] && network.layers()@[i].weights().cols() == sizes[i + 1],
        input.cols() == sizes[0],
        is_trace(activation, network, input, trace),
    ensures
        trace.len() == sizes.len(),
        forall|l: int|
            0 <= l < trace.len() ==> (#[trigger] trace[l]).rows() == input.rows() && trace[l].cols()
                == sizes[l],
        trace.last().rows() == input.rows(),
        trace.last().cols() == sizes.last(),
{
    assert forall|l: int| 0 <= l < trace.len() implies (#[trigger] trace[l]).cols() == sizes[l] by {
        if l > 0 {
            assert(trace[(l - 1) + 1].cols() == network.layers()@[l - 1].weights().cols());
        }
    }
}

} // verus!
