//! What a network computes, as mathematics over grids of numbers.
//!
//! A grid is a sequence of rows. A layer's activations are a column: a grid
//! with one entry per row.

use vstd::prelude::*;
use crate::activation::Activation;
use crate::matrix::{
    difference_grid, hadamard_grid, is_grid, product_grid, sum_grid, transpose_grid,
};
use crate::scalar::Scalar;

verus! {

/// The four tables a network learns, one grid per transition between layers.
pub struct Params<T> {
    pub weights: Seq<Seq<Seq<T>>>,
    pub biases: Seq<Seq<Seq<T>>>,
    pub edge_vel: Seq<Seq<Seq<T>>>,
    pub neuron_vel: Seq<Seq<Seq<T>>>,
}

/// The two rates of a network, fixed for its lifetime.
pub struct Rates<T> {
    pub learning: T,
    pub impulse: T,
}

/// `v` as a column: row `i` holds `v[i]` alone.
pub open spec fn column<T>(v: Seq<T>) -> Seq<Seq<T>> {
    Seq::new(v.len(), |i: int| seq![v[i]])
}

/// The entries of a column, top to bottom.
pub open spec fn flat<T>(col: Seq<Seq<T>>) -> Seq<T> {
    Seq::new(col.len(), |i: int| col[i][0])
}

/// Every entry `x` replaced by `x * k`.
pub open spec fn scale_grid<T: Scalar>(g: Seq<Seq<T>>, k: T) -> Seq<Seq<T>> {
    Seq::new(g.len(), |i: int| Seq::new(g[i].len(), |j: int| g[i][j].times_spec(k)))
}

/// Every entry replaced by the activation of it.
pub open spec fn activate<T: Scalar, A: Activation<T>>(act: A, g: Seq<Seq<T>>) -> Seq<Seq<T>> {
    Seq::new(g.len(), |i: int| Seq::new(g[i].len(), |j: int| act.function_spec(g[i][j])))
}

/// Every entry replaced by the derivative at it.
pub open spec fn slopes<T: Scalar, A: Activation<T>>(act: A, g: Seq<Seq<T>>) -> Seq<Seq<T>> {
    Seq::new(g.len(), |i: int| Seq::new(g[i].len(), |j: int| act.derivative_spec(g[i][j])))
}

/// The activations of the next layer: `f(w * x + b)`.
pub open spec fn layer_output<T: Scalar, A: Activation<T>>(
    act: A,
    w: Seq<Seq<T>>,
    b: Seq<Seq<T>>,
    x: Seq<Seq<T>>,
) -> Seq<Seq<T>> {
    activate(act, sum_grid(product_grid(w, x), b))
}

/// The activations of the input layer and of the `n` layers after it.
pub open spec fn forward_trace<T: Scalar, A: Activation<T>>(
    act: A,
    weights: Seq<Seq<Seq<T>>>,
    biases: Seq<Seq<Seq<T>>>,
    x: Seq<Seq<T>>,
    n: nat,
) -> Seq<Seq<Seq<T>>>
    decreases n,
{
    if n == 0 {
        seq![x]
    } else {
        let before = forward_trace(act, weights, biases, x, (n - 1) as nat);
        before.push(layer_output(act, weights[n - 1], biases[n - 1], before.last()))
    }
}

/// A trace over `n` transitions has `n + 1` entries and starts with the
/// input.
pub proof fn lemma_trace_start<T: Scalar, A: Activation<T>>(
    act: A,
    weights: Seq<Seq<Seq<T>>>,
    biases: Seq<Seq<Seq<T>>>,
    x: Seq<Seq<T>>,
    n: nat,
)
    ensures
        forward_trace(act, weights, biases, x, n).len() == n + 1,
        forward_trace(act, weights, biases, x, n)[0] == x,
    decreases n,
{
    if n > 0 {
        lemma_trace_start(act, weights, biases, x, (n - 1) as nat);
    }
}

/// What the network with tables `p` answers to `input`.
pub open spec fn prediction<T: Scalar, A: Activation<T>>(
    act: A,
    p: Params<T>,
    input: Seq<T>,
) -> Seq<T> {
    flat(forward_trace(act, p.weights, p.biases, column(input), p.weights.len()).last())
}

/// A velocity after one step: the old one damped by the impulse rate, the
/// push added, the sum scaled by the learning rate.
pub open spec fn velocity_step<T: Scalar>(
    velocity: Seq<Seq<T>>,
    push: Seq<Seq<T>>,
    rates: Rates<T>,
) -> Seq<Seq<T>> {
    scale_grid(sum_grid(scale_grid(velocity, rates.impulse), push), rates.learning)
}

/// The gradient at a layer: the derivative at its activations, times the
/// error that reached it.
pub open spec fn gradient_grid<T: Scalar, A: Activation<T>>(
    act: A,
    activated: Seq<Seq<T>>,
    error: Seq<Seq<T>>,
) -> Seq<Seq<T>> {
    hadamard_grid(slopes(act, activated), error)
}

/// The tables after transition `i` has learned from `error`, the error at
/// the layer it leads to. `front` holds the activations of the layer it
/// starts from, `activated` those of the layer it leads to.
pub open spec fn layer_update<T: Scalar, A: Activation<T>>(
    act: A,
    rates: Rates<T>,
    p: Params<T>,
    front: Seq<Seq<T>>,
    activated: Seq<Seq<T>>,
    error: Seq<Seq<T>>,
    i: int,
) -> Params<T> {
    let gradient = gradient_grid(act, activated, error);
    let edge = velocity_step(p.edge_vel[i], product_grid(gradient, transpose_grid(front)), rates);
    let neuron = velocity_step(p.neuron_vel[i], gradient, rates);
    Params {
        weights: p.weights.update(i, sum_grid(p.weights[i], edge)),
        biases: p.biases.update(i, sum_grid(p.biases[i], neuron)),
        edge_vel: p.edge_vel.update(i, edge),
        neuron_vel: p.neuron_vel.update(i, neuron),
    }
}

/// The error at layer `i`, from the error at layer `i + 1`: it is carried
/// back through the weights of transition `i` as they are after their update.
pub open spec fn error_before<T: Scalar>(updated: Params<T>, error: Seq<Seq<T>>, i: int) -> Seq<
    Seq<T>,
> {
    product_grid(transpose_grid(updated.weights[i]), error)
}

/// The tables after transitions `k - 1`, ..., `0` have learned, in that
/// order, where `error` is the error at layer `k`.
pub open spec fn backward<T: Scalar, A: Activation<T>>(
    act: A,
    rates: Rates<T>,
    p: Params<T>,
    trace: Seq<Seq<Seq<T>>>,
    error: Seq<Seq<T>>,
    k: nat,
) -> Params<T>
    decreases k,
{
    if k == 0 {
        p
    } else {
        let updated = layer_update(act, rates, p, trace[k - 1], trace[k as int], error, k - 1);
        backward(act, rates, updated, trace, error_before(updated, error, k - 1), (k - 1) as nat)
    }
}

/// The tables after one example: a forward pass on `input`, then a backward
/// pass from the difference between `target` and the answer.
pub open spec fn learn_one<T: Scalar, A: Activation<T>>(
    act: A,
    rates: Rates<T>,
    p: Params<T>,
    input: Seq<T>,
    target: Seq<T>,
) -> Params<T> {
    let trace = forward_trace(act, p.weights, p.biases, column(input), p.weights.len());
    backward(
        act,
        rates,
        p,
        trace,
        difference_grid(column(target), trace.last()),
        p.weights.len(),
    )
}

/// The tables after the first `n` examples of `examples`, in order.
pub open spec fn learn_examples<T: Scalar, A: Activation<T>>(
    act: A,
    rates: Rates<T>,
    p: Params<T>,
    examples: Seq<(Seq<T>, Seq<T>)>,
    n: nat,
) -> Params<T>
    decreases n,
{
    if n == 0 {
        p
    } else {
        let before = learn_examples(act, rates, p, examples, (n - 1) as nat);
        learn_one(act, rates, before, examples[n - 1].0, examples[n - 1].1)
    }
}

/// The tables after `epochs` passes over all of `examples`.
pub open spec fn learn_epochs<T: Scalar, A: Activation<T>>(
    act: A,
    rates: Rates<T>,
    p: Params<T>,
    examples: Seq<(Seq<T>, Seq<T>)>,
    epochs: nat,
) -> Params<T>
    decreases epochs,
{
    if epochs == 0 {
        p
    } else {
        let before = learn_epochs(act, rates, p, examples, (epochs - 1) as nat);
        learn_examples(act, rates, before, examples, examples.len())
    }
}

/// The tables `p` have the shapes that the layer sizes `layers` call for.
pub open spec fn fits<T>(layers: Seq<usize>, p: Params<T>) -> bool {
    &&& layers.len() >= 2
    &&& forall|i: int| 0 <= i < layers.len() ==> #[trigger] layers[i] >= 1
    &&& p.weights.len() == layers.len() - 1
    &&& p.biases.len() == layers.len() - 1
    &&& p.edge_vel.len() == layers.len() - 1
    &&& p.neuron_vel.len() == layers.len() - 1
    &&& forall|i: int|
        0 <= i < layers.len() - 1 ==> is_grid(
            #[trigger] p.weights[i],
            layers[i + 1] as nat,
            layers[i] as nat,
        )
    &&& forall|i: int|
        0 <= i < layers.len() - 1 ==> is_grid(#[trigger] p.biases[i], layers[i + 1] as nat, 1)
    &&& forall|i: int|
        0 <= i < layers.len() - 1 ==> is_grid(
            #[trigger] p.edge_vel[i],
            layers[i + 1] as nat,
            layers[i] as nat,
        )
    &&& forall|i: int|
        0 <= i < layers.len() - 1 ==> is_grid(#[trigger] p.neuron_vel[i], layers[i + 1] as nat, 1)
}

} // verus!
