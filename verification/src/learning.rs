//! What a network is shown: vectors of numbers, alone and in pairs.

use vstd::prelude::*;

verus! {

/// A vector of numbers: the input of a network, its answer, or the answer
/// that was wanted.
#[derive(Debug)]
pub struct Data<T>(pub Vec<T>);

impl<T> View for Data<T> {
    type V = Seq<T>;

    open spec fn view(&self) -> Seq<T> {
        self.0@
    }
}

impl<T: Copy> Clone for Data<T> {
    /// A copy with the same numbers.
    fn clone(&self) -> (d: Data<T>)
        ensures
            d@ == self@,
    {
        let mut copy: Vec<T> = Vec::new();
        let mut i: usize = 0;
        while i < self.0.len()
            invariant
                i <= self.0@.len(),
                copy@.len() == i,
                forall|k: int| 0 <= k < i ==> #[trigger] copy@[k] == self.0@[k],
            decreases self.0@.len() - i,
        {
            copy.push(self.0[i]);
            i = i + 1;
        }
        Data(copy)
    }
}

impl<T> Data<T> {
    /// The numbers of `data`, each converted.
    pub fn new<U: Into<T>>(data: Vec<U>) -> (d: Data<T>)
        ensures
            converted(data@, d@),
    {
        let mut out: Vec<T> = Vec::new();
        for x in it: data
            invariant
                out@.len() == it.index(),
                forall|i: int|
                    0 <= i < out@.len() ==> call_ensures(
                        <U as Into<T>>::into,
                        (it.seq()[i],),
                        #[trigger] out@[i],
                    ),
        {
            out.push(x.into());
        }
        Data(out)
    }
}

/// An input together with the answer wanted for it.
pub struct Example<T> {
    pub input: Data<T>,
    pub target: Data<T>,
}

/// Examples, in the order in which they are shown.
pub struct DataSet<T>(pub Vec<Example<T>>);

impl<T> Example<T> {
    /// The example with the given input and target.
    pub fn new(input: Data<T>, target: Data<T>) -> (e: Example<T>)
        ensures
            e.input == input,
            e.target == target,
    {
        Example { input, target }
    }
}

/// `to` holds the numbers of `from`, each converted.
pub open spec fn converted<U: Into<T>, T>(from: Seq<U>, to: Seq<T>) -> bool {
    &&& to.len() == from.len()
    &&& forall|i: int|
        0 <= i < from.len() ==> call_ensures(<U as Into<T>>::into, (from[i],), #[trigger] to[i])
}

impl<T> DataSet<T> {
    /// The examples as pairs of sequences.
    pub open spec fn pairs(&self) -> Seq<(Seq<T>, Seq<T>)> {
        Seq::new(self.0@.len(), |i: int| (self.0@[i].input@, self.0@[i].target@))
    }

    /// One example per row of `value`, in order: its input from the first
    /// part of the row, its target from the second, each number converted.
    pub fn from_table<T1: Into<T>, T2: Into<T>>(value: Vec<(Vec<T1>, Vec<T2>)>) -> (set: DataSet<T>)
        ensures
            set.pairs().len() == value@.len(),
            forall|j: int|
                0 <= j < value@.len() ==> converted(value@[j].0@, (#[trigger] set.pairs()[j]).0)
                    && converted(value@[j].1@, set.pairs()[j].1),
    {
        let mut examples: Vec<Example<T>> = Vec::new();
        for row in it: value
            invariant
                examples@.len() == it.index(),
                forall|j: int|
                    0 <= j < examples@.len() ==> converted(
                        it.seq()[j].0@,
                        (#[trigger] examples@[j]).input@,
                    ) && converted(it.seq()[j].1@, examples@[j].target@),
        {
            let (input, target) = row;
            examples.push(Example::new(Data::new(input), Data::new(target)));
        }
        DataSet(examples)
    }
}

} // verus!
