//! What holds of every network, whatever it has been shown.

use vstd::prelude::*;
use crate::activation::Activation;
use crate::learning::DataSet;
use crate::matrix::{difference_grid, is_grid};
use crate::model::{
    backward, column, error_before, fits, forward_trace, layer_update, learn_epochs,
    learn_examples, learn_one, prediction, Params, Rates,
};
use crate::network::Network;
use crate::persist::SaveData;
use crate::scalar::Scalar;

verus! {

/// The shapes of the weights and biases follow from the layer sizes alone.
/// Predicting, learning and training keep a network well formed and keep
/// its layer sizes, so `after` may be `before` after any number of them:
/// table by table, the shapes are the same.
pub proof fn lemma_shapes_never_change<T: Scalar, A: Activation<T>>(
    before: Network<T, A>,
    after: Network<T, A>,
)
    requires
        before.wf(),
        after.wf(),
        after.layers() == before.layers(),
    ensures
        after.params().weights.len() == before.params().weights.len(),
        after.params().biases.len() == before.params().biases.len(),
        forall|i: int|
            #![trigger before.params().weights[i]]
            #![trigger after.params().weights[i]]
            0 <= i < before.layers().len() - 1 ==> is_grid(
                before.params().weights[i],
                before.layers()[i + 1] as nat,
                before.layers()[i] as nat,
            ) && is_grid(
                after.params().weights[i],
                before.layers()[i + 1] as nat,
                before.layers()[i] as nat,
            ),
        forall|i: int|
            #![trigger before.params().biases[i]]
            #![trigger after.params().biases[i]]
            0 <= i < before.layers().len() - 1 ==> is_grid(
                before.params().biases[i],
                before.layers()[i + 1] as nat,
                1,
            ) && is_grid(after.params().biases[i], before.layers()[i + 1] as nat, 1),
{
    before.lemma_wf_fits();
    after.lemma_wf_fits();
}

/// Training is a function of where it starts: two networks with the same
/// tables, rates and activation, trained on the same examples for the same
/// number of epochs, give the same answer to every input. `first_trained`
/// and `second_trained` are what training makes of `first` and `second`.
pub proof fn lemma_training_is_deterministic<T: Scalar, A: Activation<T>>(
    first: Network<T, A>,
    second: Network<T, A>,
    first_trained: Network<T, A>,
    second_trained: Network<T, A>,
    dataset: DataSet<T>,
    epoch: nat,
    input: Seq<T>,
)
    requires
        first.params() == second.params(),
        first.rates() == second.rates(),
        first.activation() == second.activation(),
        first_trained.activation() == first.activation(),
        first_trained.params() == learn_epochs(
            first.activation(),
            first.rates(),
            first.params(),
            dataset.pairs(),
            epoch,
        ),
        second_trained.activation() == second.activation(),
        second_trained.params() == learn_epochs(
            second.activation(),
            second.rates(),
            second.params(),
            dataset.pairs(),
            epoch,
        ),
    ensures
        first_trained.params() == second_trained.params(),
        prediction(first_trained.activation(), first_trained.params(), input) == prediction(
            second_trained.activation(),
            second_trained.params(),
            input,
        ),
{
}

/// What was saved from one network, loaded into another with the same layer
/// sizes and the same activation, makes the other well formed and makes it
/// answer every input as the first does. `loaded` is `fresh` after loading
/// `saved`.
pub proof fn lemma_save_then_load<T: Scalar, A: Activation<T>>(
    source: Network<T, A>,
    saved: SaveData<T>,
    fresh: Network<T, A>,
    loaded: Network<T, A>,
    input: Seq<T>,
)
    requires
        source.wf(),
        saved@ == source.params(),
        fresh.layers() == source.layers(),
        fresh.activation() == source.activation(),
        loaded.params() == saved@,
        loaded.layers() == fresh.layers(),
        loaded.activation() == fresh.activation(),
        loaded.wf() == fits(loaded.layers(), loaded.params()),
    ensures
        loaded.wf(),
        loaded.params() == source.params(),
        prediction(loaded.activation(), loaded.params(), input) == prediction(
            source.activation(),
            source.params(),
            input,
        ),
{
    source.lemma_wf_fits();
}

/// In a forward pass through tables that fit the layer sizes, from an input
/// as wide as the input layer, the activations of layer `k` are a column of
/// `layers[k]` numbers; so the answer is as wide as the output layer.
pub proof fn lemma_trace_shapes<T: Scalar, A: Activation<T>>(
    act: A,
    layers: Seq<usize>,
    p: Params<T>,
    input: Seq<T>,
    n: nat,
)
    requires
        fits(layers, p),
        input.len() == layers[0],
        n <= layers.len() - 1,
    ensures
        forward_trace(act, p.weights, p.biases, column(input), n).len() == n + 1,
        forall|k: int|
            0 <= k <= n ==> is_grid(
                #[trigger] forward_trace(act, p.weights, p.biases, column(input), n)[k],
                layers[k] as nat,
                1,
            ),
        n == layers.len() - 1 ==> prediction(act, p, input).len() == layers.last(),
    decreases n,
{
    if n > 0 {
        lemma_trace_shapes(act, layers, p, input, (n - 1) as nat);
    }
}

/// One transition learning leaves every table with the shape it had.
proof fn lemma_layer_update_fits<T: Scalar, A: Activation<T>>(
    act: A,
    rates: Rates<T>,
    layers: Seq<usize>,
    p: Params<T>,
    front: Seq<Seq<T>>,
    activated: Seq<Seq<T>>,
    error: Seq<Seq<T>>,
    i: int,
)
    requires
        fits(layers, p),
        0 <= i < layers.len() - 1,
    ensures
        fits(layers, layer_update(act, rates, p, front, activated, error, i)),
{
}

/// A backward pass leaves every table with the shape it had.
proof fn lemma_backward_fits<T: Scalar, A: Activation<T>>(
    act: A,
    rates: Rates<T>,
    layers: Seq<usize>,
    p: Params<T>,
    trace: Seq<Seq<Seq<T>>>,
    error: Seq<Seq<T>>,
    k: nat,
)
    requires
        fits(layers, p),
        k <= layers.len() - 1,
    ensures
        fits(layers, backward(act, rates, p, trace, error, k)),
    decreases k,
{
    if k > 0 {
        let updated = layer_update(act, rates, p, trace[k - 1], trace[k as int], error, k - 1);
        lemma_layer_update_fits(act, rates, layers, p, trace[k - 1], trace[k as int], error, k - 1);
        lemma_backward_fits(
            act,
            rates,
            layers,
            updated,
            trace,
            error_before(updated, error, k - 1),
            (k - 1) as nat,
        );
    }
}

/// Learning from the first `n` examples leaves every table with the shape
/// it had.
proof fn lemma_learn_examples_fits<T: Scalar, A: Activation<T>>(
    act: A,
    rates: Rates<T>,
    layers: Seq<usize>,
    p: Params<T>,
    examples: Seq<(Seq<T>, Seq<T>)>,
    n: nat,
)
    requires
        fits(layers, p),
    ensures
        fits(layers, learn_examples(act, rates, p, examples, n)),
    decreases n,
{
    if n > 0 {
        lemma_learn_examples_fits(act, rates, layers, p, examples, (n - 1) as nat);
        let before = learn_examples(act, rates, p, examples, (n - 1) as nat);
        let trace = forward_trace(
            act,
            before.weights,
            before.biases,
            column(examples[n - 1].0),
            before.weights.len(),
        );
        lemma_backward_fits(
            act,
            rates,
            layers,
            before,
            trace,
            difference_grid(column(examples[n - 1].1), trace.last()),
            before.weights.len(),
        );
    }
}

/// Tables that fit the layer sizes still fit them after any number of
/// epochs over any examples: learning moves numbers and never a shape.
pub proof fn lemma_learning_keeps_shapes<T: Scalar, A: Activation<T>>(
    act: A,
    rates: Rates<T>,
    layers: Seq<usize>,
    p: Params<T>,
    examples: Seq<(Seq<T>, Seq<T>)>,
    epochs: nat,
)
    requires
        fits(layers, p),
    ensures
        fits(layers, learn_epochs(act, rates, p, examples, epochs)),
    decreases epochs,
{
    if epochs > 0 {
        lemma_learning_keeps_shapes(act, rates, layers, p, examples, (epochs - 1) as nat);
        lemma_learn_examples_fits(
            act,
            rates,
            layers,
            learn_epochs(act, rates, p, examples, (epochs - 1) as nat),
            examples,
            examples.len(),
        );
    }
}

} // verus!
