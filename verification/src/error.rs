//! The two ways an operation can be refused.

use vstd::prelude::*;

verus! {

/// Why an operation was refused. Nothing is changed when one is returned.
#[derive(Clone, Copy, Debug, PartialEq, Eq, Structural)]
pub enum Error {
    /// Two matrices whose shapes do not fit the operation.
    ShapeMismatch { left_rows: usize, left_cols: usize, right_rows: usize, right_cols: usize },
    /// An input vector whose length is not the width of the input layer.
    DimensionMismatch { expected: usize, found: usize },
}

} // verus!
