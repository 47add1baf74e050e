//! A network of dense layers: prediction, and learning by backpropagation
//! with momentum.

use vstd::prelude::*;
use crate::activation::Activation;
use crate::error::Error;
use crate::learning::{Data, DataSet};
use crate::matrix::{
    copy_rows, difference_grid, grid_of, is_grid, product_grid, transpose_grid, zero_grid, Matrix,
};
use crate::model::{
    activate, backward, column, error_before, fits, flat, forward_trace, gradient_grid,
    layer_output, layer_update, learn_epochs, learn_examples, learn_one, lemma_trace_start,
    prediction, scale_grid, slopes, velocity_step, Params, Rates,
};
use crate::persist::{all_rectangular, tables_view, SaveData};
use crate::scalar::Scalar;

verus! {

/// The grids that a sequence of matrices shows.
pub open spec fn stack_view<T>(ms: Seq<Matrix<T>>) -> Seq<Seq<Seq<T>>> {
    Seq::new(ms.len(), |k: int| ms[k]@)
}

/// `m` is a well-formed matrix of the given shape.
pub open spec fn shaped<T: Scalar>(m: Matrix<T>, rows: usize, cols: usize) -> bool {
    m.wf() && m.rows == rows && m.cols == cols
}

/// Whether `layers` can be the layer sizes of a network: at least an input
/// and an output layer, and no layer without a neuron.
pub open spec fn valid_layers(layers: Seq<usize>) -> bool {
    &&& layers.len() >= 2
    &&& forall|i: int| 0 <= i < layers.len() ==> #[trigger] layers[i] >= 1
}

/// Whether `layers` can be the layer sizes of a network.
pub fn check_layers(layers: &Vec<usize>) -> (ok: bool)
    ensures
        ok == valid_layers(layers@),
{
    if layers.len() < 2 {
        return false;
    }
    let mut i: usize = 0;
    while i < layers.len()
        invariant
            i <= layers@.len(),
            forall|k: int| 0 <= k < i ==> #[trigger] layers@[k] >= 1,
        decreases layers@.len() - i,
    {
        if layers[i] == 0 {
            return false;
        }
        i = i + 1;
    }
    true
}

/// The rows of every matrix of `stack`, copied.
fn to_tables<T: Scalar>(stack: &Vec<Matrix<T>>) -> (tables: Vec<Vec<Vec<T>>>)
    ensures
        tables_view(tables@) == stack_view(stack@),
{
    let mut tables: Vec<Vec<Vec<T>>> = Vec::new();
    let mut k: usize = 0;
    while k < stack.len()
        invariant
            k <= stack@.len(),
            tables@.len() == k,
            forall|i: int| 0 <= i < k ==> grid_of((#[trigger] tables@[i])@) == stack@[i]@,
        decreases stack@.len() - k,
    {
        let copy: Matrix<T> = stack[k].clone();
        tables.push(copy.data);
        k = k + 1;
    }
    tables
}

/// A matrix for every table of `tables`, with the same rows.
fn from_tables<T: Scalar>(tables: &Vec<Vec<Vec<T>>>) -> (stack: Vec<Matrix<T>>)
    requires
        all_rectangular(tables_view(tables@)),
    ensures
        stack_view(stack@) == tables_view(tables@),
        forall|i: int| 0 <= i < stack@.len() ==> (#[trigger] stack@[i]).wf(),
{
    let mut stack: Vec<Matrix<T>> = Vec::new();
    let mut k: usize = 0;
    while k < tables.len()
        invariant
            k <= tables@.len(),
            stack@.len() == k,
            all_rectangular(tables_view(tables@)),
            forall|i: int| 0 <= i < k ==> (#[trigger] stack@[i])@ == grid_of(tables@[i]@),
            forall|i: int| 0 <= i < k ==> (#[trigger] stack@[i]).wf(),
        decreases tables@.len() - k,
    {
        assert(tables_view(tables@)[k as int] == grid_of(tables@[k as int]@));
        stack.push(Matrix::from(copy_rows(&tables[k])));
        k = k + 1;
    }
    stack
}

/// A feedforward network. Transition `i` leads from layer `i` to layer
/// `i + 1`; it has a weight matrix, a bias column, and a velocity for each.
pub struct Network<T, A> {
    layers: Vec<usize>,
    weights: Vec<Matrix<T>>,
    biases: Vec<Matrix<T>>,
    data: Vec<Matrix<T>>,
    edge_vel: Vec<Matrix<T>>,
    neuron_vel: Vec<Matrix<T>>,
    learning_rate: T,
    impulse_rate: T,
    activation: A,
}

impl<T: Scalar, A: Activation<T>> Network<T, A> {
    /// The sizes of the layers, input first.
    pub closed spec fn layers(&self) -> Seq<usize> {
        self.layers@
    }

    /// The four learned tables.
    pub closed spec fn params(&self) -> Params<T> {
        Params {
            weights: stack_view(self.weights@),
            biases: stack_view(self.biases@),
            edge_vel: stack_view(self.edge_vel@),
            neuron_vel: stack_view(self.neuron_vel@),
        }
    }

    /// The learning rate and the impulse rate.
    pub closed spec fn rates(&self) -> Rates<T> {
        Rates { learning: self.learning_rate, impulse: self.impulse_rate }
    }

    /// The activation.
    pub closed spec fn activation(&self) -> A {
        self.activation
    }

    /// The activations that the last forward pass left, input layer first;
    /// empty when none is kept.
    pub closed spec fn trace(&self) -> Seq<Seq<Seq<T>>> {
        stack_view(self.data@)
    }

    /// The layer sizes are valid and every table has the shape they call for.
    pub closed spec fn wf(&self) -> bool {
        &&& valid_layers(self.layers@)
        &&& self.weights@.len() == self.layers@.len() - 1
        &&& self.biases@.len() == self.layers@.len() - 1
        &&& self.edge_vel@.len() == self.layers@.len() - 1
        &&& self.neuron_vel@.len() == self.layers@.len() - 1
        &&& forall|i: int|
            0 <= i < self.layers@.len() - 1 ==> shaped(
                #[trigger] self.weights@[i],
                self.layers@[i + 1],
                self.layers@[i],
            )
        &&& forall|i: int|
            0 <= i < self.layers@.len() - 1 ==> shaped(
                #[trigger] self.biases@[i],
                self.layers@[i + 1],
                1,
            )
        &&& forall|i: int|
            0 <= i < self.layers@.len() - 1 ==> shaped(
                #[trigger] self.edge_vel@[i],
                self.layers@[i + 1],
                self.layers@[i],
            )
        &&& forall|i: int|
            0 <= i < self.layers@.len() - 1 ==> shaped(
                #[trigger] self.neuron_vel@[i],
                self.layers@[i + 1],
                1,
            )
    }

    /// The kept activations are a column per layer.
    pub closed spec fn trace_shaped(&self) -> bool {
        &&& self.data@.len() == self.layers@.len()
        &&& forall|k: int|
            0 <= k < self.layers@.len() ==> shaped(#[trigger] self.data@[k], self.layers@[k], 1)
    }

    /// A forward pass has been made since the tables last changed, and its
    /// activations are kept.
    pub open spec fn trace_ready(&self) -> bool {
        &&& self.trace_shaped()
        &&& self.trace().len() == self.layers().len()
        &&& self.trace() == forward_trace(
            self.activation(),
            self.params().weights,
            self.params().biases,
            self.trace()[0],
            (self.layers().len() - 1) as nat,
        )
    }

    /// The tables of a well-formed network fit its layer sizes.
    pub proof fn lemma_wf_fits(&self)
        requires
            self.wf(),
        ensures
            valid_layers(self.layers()),
            fits(self.layers(), self.params()),
    {
        let p = self.params();
        assert forall|i: int| 0 <= i < self.layers@.len() - 1 implies is_grid(
            #[trigger] p.weights[i],
            self.layers@[i + 1] as nat,
            self.layers@[i] as nat,
        ) by {
            self.weights@[i].lemma_view_is_grid();
        }
        assert forall|i: int| 0 <= i < self.layers@.len() - 1 implies is_grid(
            #[trigger] p.biases[i],
            self.layers@[i + 1] as nat,
            1,
        ) by {
            self.biases@[i].lemma_view_is_grid();
        }
        assert forall|i: int| 0 <= i < self.layers@.len() - 1 implies is_grid(
            #[trigger] p.edge_vel[i],
            self.layers@[i + 1] as nat,
            self.layers@[i] as nat,
        ) by {
            self.edge_vel@[i].lemma_view_is_grid();
        }
        assert forall|i: int| 0 <= i < self.layers@.len() - 1 implies is_grid(
            #[trigger] p.neuron_vel[i],
            self.layers@[i + 1] as nat,
            1,
        ) by {
            self.neuron_vel@[i].lemma_view_is_grid();
        }
    }

    /// A network with the given layer sizes, rates and activation. Its
    /// velocities are zero; every weight and every bias is a value that
    /// `draw` returned.
    pub fn new<G: Fn() -> T>(
        layers: Vec<usize>,
        learning_rate: T,
        impulse_rate: T,
        activation: A,
        draw: &G,
    ) -> (n: Network<T, A>)
        requires
            valid_layers(layers@),
            call_requires(draw, ()),
        ensures
            n.wf(),
            n.layers() == layers@,
            n.rates() == (Rates { learning: learning_rate, impulse: impulse_rate }),
            n.activation() == activation,
            n.trace().len() == 0,
            forall|i: int|
                0 <= i < layers@.len() - 1 ==> #[trigger] n.params().edge_vel[i] == zero_grid::<T>(
                    layers@[i + 1] as nat,
                    layers@[i] as nat,
                ),
            forall|i: int|
                0 <= i < layers@.len() - 1 ==> #[trigger] n.params().neuron_vel[i]
                    == zero_grid::<T>(layers@[i + 1] as nat, 1),
            forall|i: int, r: int, c: int|
                0 <= i < layers@.len() - 1 && 0 <= r < layers@[i + 1] && 0 <= c < layers@[i]
                    ==> call_ensures(draw, (), #[trigger] n.params().weights[i][r][c]),
            forall|i: int, r: int|
                0 <= i < layers@.len() - 1 && 0 <= r < layers@[i + 1] ==> call_ensures(
                    draw,
                    (),
                    #[trigger] n.params().biases[i][r][0],
                ),
    {
        let mut weights: Vec<Matrix<T>> = Vec::new();
        let mut biases: Vec<Matrix<T>> = Vec::new();
        let mut edge_vel: Vec<Matrix<T>> = Vec::new();
        let mut neuron_vel: Vec<Matrix<T>> = Vec::new();
        let count: usize = layers.len() - 1;
        let mut i: usize = 0;
        while i < count
            invariant
                i <= count,
                count == layers@.len() - 1,
                valid_layers(layers@),
                call_requires(draw, ()),
                weights@.len() == i,
                biases@.len() == i,
                edge_vel@.len() == i,
                neuron_vel@.len() == i,
                forall|k: int|
                    0 <= k < i ==> shaped(#[trigger] weights@[k], layers@[k + 1], layers@[k]),
                forall|k: int| 0 <= k < i ==> shaped(#[trigger] biases@[k], layers@[k + 1], 1),
                forall|k: int|
                    0 <= k < i ==> shaped(#[trigger] edge_vel@[k], layers@[k + 1], layers@[k]),
                forall|k: int| 0 <= k < i ==> shaped(#[trigger] neuron_vel@[k], layers@[k + 1], 1),
                forall|k: int|
                    0 <= k < i ==> (#[trigger] edge_vel@[k])@ == zero_grid::<T>(
                        layers@[k + 1] as nat,
                        layers@[k] as nat,
                    ),
                forall|k: int|
                    0 <= k < i ==> (#[trigger] neuron_vel@[k])@ == zero_grid::<T>(
                        layers@[k + 1] as nat,
                        1,
                    ),
                forall|k: int, r: int, c: int|
                    0 <= k < i && 0 <= r < layers@[k + 1] && 0 <= c < layers@[k] ==> call_ensures(
                        draw,
                        (),
                        #[trigger] weights@[k]@[r][c],
                    ),
                forall|k: int, r: int|
                    0 <= k < i && 0 <= r < layers@[k + 1] ==> call_ensures(
                        draw,
                        (),
                        #[trigger] biases@[k]@[r][0],
                    ),
            decreases count - i,
        {
            weights.push(Matrix::random(layers[i + 1], layers[i], draw));
            biases.push(Matrix::random(layers[i + 1], 1, draw));
            neuron_vel.push(Matrix::new(layers[i + 1], 1));
            edge_vel.push(Matrix::new(layers[i + 1], layers[i]));
            i = i + 1;
        }
        Network {
            layers,
            weights,
            biases,
            edge_vel,
            neuron_vel,
            data: Vec::new(),
            learning_rate,
            impulse_rate,
            activation,
        }
    }

    /// The answer of the network to `input`. The activations of every layer
    /// are kept for the backward pass that may follow. Refused, with nothing
    /// changed, unless `input` has one number per neuron of the input layer.
    pub fn predict(&mut self, input: Data<T>) -> (r: Result<Data<T>, Error>)
        requires
            old(self).wf(),
        ensures
            final(self).wf(),
            final(self).layers() == old(self).layers(),
            final(self).params() == old(self).params(),
            final(self).rates() == old(self).rates(),
            final(self).activation() == old(self).activation(),
            input@.len() == old(self).layers()[0] ==> r is Ok && r->Ok_0@ == prediction(
                old(self).activation(),
                old(self).params(),
                input@,
            ) && r->Ok_0@.len() == old(self).layers().last() && final(self).trace_ready()
                && final(self).trace()[0] == column(input@),
            input@.len() != old(self).layers()[0] ==> *final(self) == *old(self) && r == Err::<
                Data<T>,
                Error,
            >(
                Error::DimensionMismatch {
                    expected: old(self).layers()[0],
                    found: input@.len() as usize,
                },
            ),
    {
        let Data(input) = input;
        if input.len() != self.layers[0] {
            return Err(Error::DimensionMismatch { expected: self.layers[0], found: input.len() });
        }
        let ghost x = column(input@);
        let mut rows: Vec<Vec<T>> = Vec::new();
        rows.push(input);
        let mut current: Matrix<T> = Matrix::from(rows).rev();
        assert(current@ =~~= x);
        let mut trace: Vec<Matrix<T>> = Vec::new();
        let count: usize = self.layers.len() - 1;
        let mut i: usize = 0;
        while i < count
            invariant
                i <= count,
                count == self.layers@.len() - 1,
                self.wf(),
                *self == *old(self),
                trace@.len() == i,
                forall|k: int| 0 <= k < i ==> shaped(#[trigger] trace@[k], self.layers@[k], 1),
                shaped(current, self.layers@[i as int], 1),
                stack_view(trace@).push(current@) == forward_trace(
                    self.activation,
                    stack_view(self.weights@),
                    stack_view(self.biases@),
                    x,
                    i as nat,
                ),
            decreases count - i,
        {
            trace.push(current);
            let mut next: Matrix<T> = self.weights[i].mul(&trace[i]).unwrap();
            next.add(&self.biases[i]).unwrap();
            let ghost summed = next@;
            let act = &self.activation;
            let apply = |v: T| -> (y: T)
                ensures
                    y == act.function_spec(v),
                { act.function(v) };
            next.map(&apply);
            current = next;
            assert(current@ =~~= activate(self.activation, summed));
            i = i + 1;
        }
        let answer: Matrix<T> = current.rev();
        trace.push(current);
        proof {
            assert(stack_view(trace@) =~= forward_trace(
                self.activation,
                stack_view(self.weights@),
                stack_view(self.biases@),
                x,
                count as nat,
            ));
        }
        self.data = trace;
        let mut lines: Vec<Vec<T>> = answer.data;
        let first: Vec<T> = lines.swap_remove(0);
        proof {
            assert(answer@[0] == first@);
            lemma_trace_start(
                self.activation,
                stack_view(self.weights@),
                stack_view(self.biases@),
                x,
                count as nat,
            );
        }
        Ok(Data(first))
    }

    /// The answer of the network to `input`, on plain vectors: what
    /// `predict` does, without the wrapping.
    pub fn feed_forward(&mut self, input: Vec<T>) -> (r: Result<Vec<T>, Error>)
        requires
            old(self).wf(),
        ensures
            final(self).wf(),
            final(self).layers() == old(self).layers(),
            final(self).params() == old(self).params(),
            final(self).rates() == old(self).rates(),
            final(self).activation() == old(self).activation(),
            input@.len() == old(self).layers()[0] ==> r is Ok && r->Ok_0@ == prediction(
                old(self).activation(),
                old(self).params(),
                input@,
            ) && r->Ok_0@.len() == old(self).layers().last() && final(self).trace_ready()
                && final(self).trace()[0] == column(input@),
            input@.len() != old(self).layers()[0] ==> *final(self) == *old(self) && r == Err::<
                Vec<T>,
                Error,
            >(
                Error::DimensionMismatch {
                    expected: old(self).layers()[0],
                    found: input@.len() as usize,
                },
            ),
    {
        match self.predict(Data(input)) {
            Ok(Data(answer)) => Ok(answer),
            Err(e) => Err(e),
        }
    }

    /// Lets transition `i` learn. `activated` holds the activations of the
    /// layer it leads to, `front` those of the layer it starts from, `errors`
    /// the error at the layer it leads to. Returns the error at the layer it
    /// starts from.
    fn learn_layer(
        &mut self,
        i: usize,
        activated: Matrix<T>,
        front: &Matrix<T>,
        errors: Matrix<T>,
    ) -> (carried: Matrix<T>)
        requires
            old(self).wf(),
            i < old(self).layers@.len() - 1,
            shaped(activated, old(self).layers@[i + 1], 1),
            shaped(*front, old(self).layers@[i as int], 1),
            shaped(errors, old(self).layers@[i + 1], 1),
        ensures
            final(self).wf(),
            final(self).layers == old(self).layers,
            final(self).data == old(self).data,
            final(self).learning_rate == old(self).learning_rate,
            final(self).impulse_rate == old(self).impulse_rate,
            final(self).activation == old(self).activation,
            final(self).params() == layer_update(
                old(self).activation,
                old(self).rates(),
                old(self).params(),
                front@,
                activated@,
                errors@,
                i as int,
            ),
            shaped(carried, old(self).layers@[i as int], 1),
            carried@ == error_before(final(self).params(), errors@, i as int),
    {
        let ghost rates = self.rates();
        let ghost p = self.params();
        let impulse: T = self.impulse_rate;
        let learning: T = self.learning_rate;
        let act = &self.activation;
        let slope = |v: T| -> (d: T)
            ensures
                d == act.derivative_spec(v),
            { act.derivative(v) };
        let damp = |v: T| -> (w: T)
            ensures
                w == v.times_spec(impulse),
            { v.times(impulse) };
        let scale = |v: T| -> (w: T)
            ensures
                w == v.times_spec(learning),
            { v.times(learning) };

        let mut gradient: Matrix<T> = activated;
        gradient.map(&slope);
        assert(gradient@ =~~= slopes(self.activation, activated@));
        gradient.dot(&errors).unwrap();

        self.edge_vel[i].map(&damp);
        assert(self.edge_vel@[i as int]@ =~~= scale_grid(p.edge_vel[i as int], impulse));
        let outer: Matrix<T> = gradient.mul(&front.rev()).unwrap();
        self.edge_vel[i].add(&outer).unwrap();
        let ghost edge_sum = self.edge_vel@[i as int]@;
        self.edge_vel[i].map(&scale);
        assert(self.edge_vel@[i as int]@ =~~= scale_grid(edge_sum, learning));

        self.neuron_vel[i].map(&damp);
        assert(self.neuron_vel@[i as int]@ =~~= scale_grid(p.neuron_vel[i as int], impulse));
        self.neuron_vel[i].add(&gradient).unwrap();
        let ghost neuron_sum = self.neuron_vel@[i as int]@;
        self.neuron_vel[i].map(&scale);
        assert(self.neuron_vel@[i as int]@ =~~= scale_grid(neuron_sum, learning));

        self.weights[i].add(&self.edge_vel[i]).unwrap();
        self.biases[i].add(&self.neuron_vel[i]).unwrap();

        let carried: Matrix<T> = self.weights[i].rev().mul(&errors).unwrap();
        proof {
            let q = layer_update(
                old(self).activation,
                rates,
                p,
                front@,
                activated@,
                errors@,
                i as int,
            );
            assert(self.params().weights =~= q.weights);
            assert(self.params().biases =~= q.biases);
            assert(self.params().edge_vel =~= q.edge_vel);
            assert(self.params().neuron_vel =~= q.neuron_vel);
        }
        carried
    }

    /// Learns from the forward pass just made: moves every weight and bias
    /// against the error between `target` and the answer that pass gave,
    /// last transition first. The kept activations are used up.
    pub fn back_propogate(&mut self, target: Data<T>)
        requires
            old(self).wf(),
            old(self).trace_ready(),
            target@.len() == old(self).layers().last(),
        ensures
            final(self).wf(),
            final(self).layers() == old(self).layers(),
            final(self).rates() == old(self).rates(),
            final(self).activation() == old(self).activation(),
            final(self).trace().len() == 0,
            final(self).params() == backward(
                old(self).activation(),
                old(self).rates(),
                old(self).params(),
                old(self).trace(),
                difference_grid(column(target@), old(self).trace().last()),
                (old(self).layers().len() - 1) as nat,
            ),
    {
        let ghost trace0 = self.trace();
        let ghost p0 = self.params();
        let ghost goal = column(target@);
        let Data(targets) = target;
        let count: usize = self.layers.len() - 1;
        let mut rows: Vec<Vec<T>> = Vec::new();
        rows.push(targets);
        let mut errors: Matrix<T> = Matrix::from(rows).rev();
        assert(errors@ =~~= goal);
        let mut trace: Vec<Matrix<T>> = Vec::new();
        core::mem::swap(&mut self.data, &mut trace);
        errors.sub(&trace[count]).unwrap();
        let ghost e0 = errors@;
        let mut i: usize = count;
        while i > 0
            invariant
                i <= count,
                count == self.layers@.len() - 1,
                self.wf(),
                self.layers == old(self).layers,
                self.learning_rate == old(self).learning_rate,
                self.impulse_rate == old(self).impulse_rate,
                self.activation == old(self).activation,
                self.data@.len() == 0,
                trace0.len() == count + 1,
                trace@.len() == i + 1,
                forall|k: int| 0 <= k <= i ==> shaped(#[trigger] trace@[k], self.layers@[k], 1),
                forall|k: int| 0 <= k <= i ==> (#[trigger] trace@[k])@ == trace0[k],
                shaped(errors, self.layers@[i as int], 1),
                backward(self.activation, self.rates(), self.params(), trace0, errors@, i as nat)
                    == backward(self.activation, self.rates(), p0, trace0, e0, count as nat),
            decreases i,
        {
            i = i - 1;
            let activated: Matrix<T> = trace.pop().unwrap();
            errors = self.learn_layer(i, activated, &trace[i], errors);
        }
    }

    /// Every example of `dataset` has an input as wide as the input layer
    /// and a target as wide as the output layer.
    pub open spec fn accepts(&self, dataset: &DataSet<T>) -> bool {
        forall|j: int|
            0 <= j < dataset.pairs().len() ==> (#[trigger] dataset.pairs()[j]).0.len()
                == self.layers()[0] && dataset.pairs()[j].1.len() == self.layers().last()
    }

    /// The sizes of the layers, input first.
    pub fn layer_sizes(&self) -> (sizes: &Vec<usize>)
        ensures
            sizes@ == self.layers(),
    {
        &self.layers
    }

    /// Whether every example of `dataset` has an input as wide as the input
    /// layer and a target as wide as the output layer.
    pub fn check_dataset(&self, dataset: &DataSet<T>) -> (ok: bool)
        requires
            self.wf(),
        ensures
            ok == self.accepts(dataset),
    {
        let first: usize = self.layers[0];
        let last: usize = self.layers[self.layers.len() - 1];
        let mut j: usize = 0;
        while j < dataset.0.len()
            invariant
                j <= dataset.0@.len(),
                dataset.pairs().len() == dataset.0@.len(),
                first == self.layers()[0],
                last == self.layers().last(),
                forall|k: int|
                    0 <= k < j ==> (#[trigger] dataset.pairs()[k]).0.len() == first
                        && dataset.pairs()[k].1.len() == last,
            decreases dataset.0@.len() - j,
        {
            assert(dataset.pairs()[j as int].0 == dataset.0@[j as int].input@);
            if dataset.0[j].input.0.len() != first || dataset.0[j].target.0.len() != last {
                return false;
            }
            j = j + 1;
        }
        true
    }

    /// Shows the network every example of `dataset` once, in order: a
    /// forward pass on the input, then a backward pass on the target.
    pub fn train_epoch(&mut self, dataset: &DataSet<T>)
        requires
            old(self).wf(),
            old(self).accepts(dataset),
        ensures
            final(self).wf(),
            final(self).layers() == old(self).layers(),
            final(self).rates() == old(self).rates(),
            final(self).activation() == old(self).activation(),
            final(self).params() == learn_examples(
                old(self).activation(),
                old(self).rates(),
                old(self).params(),
                dataset.pairs(),
                dataset.pairs().len(),
            ),
    {
        let ghost act = self.activation();
        let ghost rates = self.rates();
        let ghost p0 = self.params();
        let ghost pairs = dataset.pairs();
        let mut j: usize = 0;
        while j < dataset.0.len()
            invariant
                j <= dataset.0@.len(),
                pairs == dataset.pairs(),
                pairs.len() == dataset.0@.len(),
                self.wf(),
                self.accepts(dataset),
                self.layers() == old(self).layers(),
                self.rates() == rates,
                self.activation() == act,
                self.params() == learn_examples(act, rates, p0, pairs, j as nat),
            decreases dataset.0@.len() - j,
        {
            let input: Data<T> = dataset.0[j].input.clone();
            let target: Data<T> = dataset.0[j].target.clone();
            proof {
                self.lemma_wf_fits();
                assert(pairs[j as int].0 == input@);
            }
            let _ = self.predict(input);
            self.back_propogate(target);
            j = j + 1;
        }
    }

    /// Shows the network all of `dataset`, in order, `epoch` times over.
    /// Where `is_log` is set, `notify` is called with the number of every
    /// hundredth epoch, counted from one, before that epoch begins; it has
    /// no part in what is learned.
    pub fn train<N: Fn(usize)>(
        &mut self,
        dataset: &DataSet<T>,
        epoch: usize,
        is_log: bool,
        notify: &N,
    )
        requires
            old(self).wf(),
            old(self).accepts(dataset),
            forall|i: usize| 1 <= i <= epoch && i % 100 == 0 ==> call_requires(notify, (i,)),
        ensures
            final(self).wf(),
            final(self).layers() == old(self).layers(),
            final(self).rates() == old(self).rates(),
            final(self).activation() == old(self).activation(),
            final(self).params() == learn_epochs(
                old(self).activation(),
                old(self).rates(),
                old(self).params(),
                dataset.pairs(),
                epoch as nat,
            ),
    {
        let ghost act = self.activation();
        let ghost rates = self.rates();
        let ghost p0 = self.params();
        let mut done: usize = 0;
        while done < epoch
            invariant
                done <= epoch,
                self.wf(),
                self.accepts(dataset),
                self.layers() == old(self).layers(),
                self.rates() == rates,
                self.activation() == act,
                self.params() == learn_epochs(act, rates, p0, dataset.pairs(), done as nat),
                forall|i: usize| 1 <= i <= epoch && i % 100 == 0 ==> call_requires(notify, (i,)),
            decreases epoch - done,
        {
            if progress_due(done + 1, is_log) {
                notify(done + 1);
            }
            self.train_epoch(dataset);
            done = done + 1;
        }
    }

    /// The four tables of the network, in the form in which they are stored.
    pub fn save(&self) -> (saved: SaveData<T>)
        ensures
            saved@ == self.params(),
    {
        SaveData {
            weights: to_tables(&self.weights),
            biases: to_tables(&self.biases),
            edge_vel: to_tables(&self.edge_vel),
            neuron_vel: to_tables(&self.neuron_vel),
        }
    }

    /// Replaces the four tables of the network by those of `save_data`, as
    /// they are: their shapes are not held against the layer sizes. The
    /// network is well formed afterwards exactly if they fit.
    pub fn load(&mut self, save_data: &SaveData<T>)
        requires
            save_data.wf(),
        ensures
            final(self).params() == save_data@,
            final(self).layers() == old(self).layers(),
            final(self).rates() == old(self).rates(),
            final(self).activation() == old(self).activation(),
            final(self).trace() == old(self).trace(),
            final(self).wf() == fits(final(self).layers(), final(self).params()),
    {
        self.weights = from_tables(&save_data.weights);
        self.biases = from_tables(&save_data.biases);
        self.edge_vel = from_tables(&save_data.edge_vel);
        self.neuron_vel = from_tables(&save_data.neuron_vel);
        proof {
            if self.wf() {
                self.lemma_wf_fits();
            }
            if fits(self.layers(), self.params()) {
                let p = self.params();
                assert forall|i: int| 0 <= i < self.layers@.len() - 1 implies shaped(
                    #[trigger] self.weights@[i],
                    self.layers@[i + 1],
                    self.layers@[i],
                ) by {
                    assert(p.weights[i] == self.weights@[i]@);
                    self.weights@[i].lemma_shape_of_view(
                        self.layers@[i + 1] as nat,
                        self.layers@[i] as nat,
                    );
                }
                assert forall|i: int| 0 <= i < self.layers@.len() - 1 implies shaped(
                    #[trigger] self.biases@[i],
                    self.layers@[i + 1],
                    1,
                ) by {
                    assert(p.biases[i] == self.biases@[i]@);
                    self.biases@[i].lemma_shape_of_view(self.layers@[i + 1] as nat, 1);
                }
                assert forall|i: int| 0 <= i < self.layers@.len() - 1 implies shaped(
                    #[trigger] self.edge_vel@[i],
                    self.layers@[i + 1],
                    self.layers@[i],
                ) by {
                    assert(p.edge_vel[i] == self.edge_vel@[i]@);
                    self.edge_vel@[i].lemma_shape_of_view(
                        self.layers@[i + 1] as nat,
                        self.layers@[i] as nat,
                    );
                }
                assert forall|i: int| 0 <= i < self.layers@.len() - 1 implies shaped(
                    #[trigger] self.neuron_vel@[i],
                    self.layers@[i + 1],
                    1,
                ) by {
                    assert(p.neuron_vel[i] == self.neuron_vel@[i]@);
                    self.neuron_vel@[i].lemma_shape_of_view(self.layers@[i + 1] as nat, 1);
                }
            }
        }
    }
}

/// Whether a progress notice is due before the given epoch, counted from
/// one: every hundredth epoch, and only when notices were asked for.
pub fn progress_due(epoch: usize, is_log: bool) -> (due: bool)
    ensures
        due == (is_log && epoch % 100 == 0),
{
    is_log && epoch % 100 == 0
}

} // verus!
