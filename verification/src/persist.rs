//! The learned tables of a network as plain nested vectors, the form in
//! which they are stored.

use vstd::prelude::*;
use crate::matrix::{grid_of, is_grid, rectangular, Matrix};
use crate::model::{fits, Params};
use crate::scalar::Scalar;

verus! {

/// The grids that a sequence of tables shows.
pub open spec fn tables_view<T>(tables: Seq<Vec<Vec<T>>>) -> Seq<Seq<Seq<T>>> {
    Seq::new(tables.len(), |k: int| grid_of(tables[k]@))
}

/// Every one of `tables` has a row, and rows of one length that is not zero.
pub open spec fn all_rectangular<T>(tables: Seq<Seq<Seq<T>>>) -> bool {
    forall|k: int| 0 <= k < tables.len() ==> rectangular(#[trigger] tables[k])
}

/// The four tables of a network, each as one table of rows per transition.
/// Neither the layer sizes nor the rates nor the activation are part of it.
#[derive(Debug)]
pub struct SaveData<T> {
    pub weights: Vec<Vec<Vec<T>>>,
    pub biases: Vec<Vec<Vec<T>>>,
    pub edge_vel: Vec<Vec<Vec<T>>>,
    pub neuron_vel: Vec<Vec<Vec<T>>>,
}

impl<T> View for SaveData<T> {
    type V = Params<T>;

    open spec fn view(&self) -> Params<T> {
        Params {
            weights: tables_view(self.weights@),
            biases: tables_view(self.biases@),
            edge_vel: tables_view(self.edge_vel@),
            neuron_vel: tables_view(self.neuron_vel@),
        }
    }
}

/// Whether every one of `tables` can be the rows of a matrix.
fn check_tables<T: Scalar>(tables: &Vec<Vec<Vec<T>>>) -> (ok: bool)
    ensures
        ok == all_rectangular(tables_view(tables@)),
{
    let mut k: usize = 0;
    while k < tables.len()
        invariant
            k <= tables@.len(),
            forall|i: int| 0 <= i < k ==> rectangular(#[trigger] tables_view(tables@)[i]),
        decreases tables@.len() - k,
    {
        if !Matrix::<T>::is_table(&tables[k]) {
            assert(tables_view(tables@)[k as int] == grid_of(tables@[k as int]@));
            return false;
        }
        k = k + 1;
    }
    true
}

/// Whether `table` has exactly `rows` rows of `cols` entries, neither zero.
fn check_shape<T>(table: &Vec<Vec<T>>, rows: usize, cols: usize) -> (ok: bool)
    ensures
        ok == is_grid(grid_of(table@), rows as nat, cols as nat),
{
    if rows == 0 || cols == 0 || table.len() != rows {
        return false;
    }
    let mut i: usize = 0;
    while i < rows
        invariant
            i <= rows,
            rows == table@.len(),
            forall|r: int| 0 <= r < i ==> (#[trigger] grid_of(table@)[r]).len() == cols,
        decreases rows - i,
    {
        assert(grid_of(table@)[i as int] == table@[i as int]@);
        if table[i].len() != cols {
            return false;
        }
        i = i + 1;
    }
    true
}

impl<T: Scalar> SaveData<T> {
    /// Every table has a row, and rows of one length that is not zero: each
    /// can be the rows of a matrix.
    pub open spec fn wf(&self) -> bool {
        &&& all_rectangular(self@.weights)
        &&& all_rectangular(self@.biases)
        &&& all_rectangular(self@.edge_vel)
        &&& all_rectangular(self@.neuron_vel)
    }

    /// Whether every table can be the rows of a matrix.
    pub fn is_well_formed(&self) -> (ok: bool)
        ensures
            ok == self.wf(),
    {
        check_tables(&self.weights) && check_tables(&self.biases) && check_tables(&self.edge_vel)
            && check_tables(&self.neuron_vel)
    }

    /// Whether the tables have the shapes that the layer sizes `layers` call
    /// for, and `layers` are valid layer sizes.
    pub fn fits(&self, layers: &Vec<usize>) -> (ok: bool)
        ensures
            ok == fits(layers@, self@),
    {
        if layers.len() < 2 {
            return false;
        }
        let count: usize = layers.len() - 1;
        if self.weights.len() != count || self.biases.len() != count || self.edge_vel.len()
            != count || self.neuron_vel.len() != count {
            return false;
        }
        if layers[0] == 0 {
            return false;
        }
        let mut k: usize = 0;
        while k < count
            invariant
                k <= count,
                count == layers@.len() - 1,
                self.weights@.len() == count,
                self.biases@.len() == count,
                self.edge_vel@.len() == count,
                self.neuron_vel@.len() == count,
                forall|i: int| 0 <= i <= k ==> #[trigger] layers@[i] >= 1,
                forall|i: int|
                    0 <= i < k ==> is_grid(
                        #[trigger] self@.weights[i],
                        layers@[i + 1] as nat,
                        layers@[i] as nat,
                    ),
                forall|i: int|
                    0 <= i < k ==> is_grid(#[trigger] self@.biases[i], layers@[i + 1] as nat, 1),
                forall|i: int|
                    0 <= i < k ==> is_grid(
                        #[trigger] self@.edge_vel[i],
                        layers@[i + 1] as nat,
                        layers@[i] as nat,
                    ),
                forall|i: int|
                    0 <= i < k ==> is_grid(
                        #[trigger] self@.neuron_vel[i],
                        layers@[i + 1] as nat,
                        1,
                    ),
            decreases count - k,
        {
            let rows: usize = layers[k + 1];
            let cols: usize = layers[k];
            proof {
                assert(self@.weights[k as int] == grid_of(self.weights@[k as int]@));
                assert(self@.biases[k as int] == grid_of(self.biases@[k as int]@));
                assert(self@.edge_vel[k as int] == grid_of(self.edge_vel@[k as int]@));
                assert(self@.neuron_vel[k as int] == grid_of(self.neuron_vel@[k as int]@));
            }
            if rows == 0 {
                return false;
            }
            if !check_shape(&self.weights[k], rows, cols) || !check_shape(&self.biases[k], rows, 1)
                || !check_shape(&self.edge_vel[k], rows, cols) || !check_shape(
                &self.neuron_vel[k],
                rows,
                1,
            ) {
                return false;
            }
            k = k + 1;
        }
        true
    }
}

} // verus!
