//! What transposition and the matrix product always satisfy.

use vstd::prelude::*;
use crate::matrix::{dot_prefix, is_grid, product_grid, transpose_grid, width, Matrix};
use crate::scalar::Scalar;

verus! {

/// The transpose of a grid of shape `(rows, cols)` is a grid of shape
/// `(cols, rows)`.
pub proof fn lemma_transpose_shape<T>(g: Seq<Seq<T>>, rows: nat, cols: nat)
    requires
        is_grid(g, rows, cols),
    ensures
        is_grid(transpose_grid(g), cols, rows),
        width(g) == cols,
        width(transpose_grid(g)) == rows,
{
}

/// The product of grids of shapes `(rows, inner)` and `(inner, cols)` is a
/// grid of shape `(rows, cols)`.
pub proof fn lemma_product_shape<T: Scalar>(
    a: Seq<Seq<T>>,
    b: Seq<Seq<T>>,
    rows: nat,
    inner: nat,
    cols: nat,
)
    requires
        is_grid(a, rows, inner),
        is_grid(b, inner, cols),
    ensures
        is_grid(product_grid(a, b), rows, cols),
        width(product_grid(a, b)) == cols,
{
}

/// Transposing twice gives the matrix back.
pub proof fn lemma_transpose_involution<T: Scalar>(a: Matrix<T>)
    requires
        a.wf(),
    ensures
        transpose_grid(transpose_grid(a@)) == a@,
{
    a.lemma_view_is_grid();
    lemma_transpose_shape(a@, a.rows as nat, a.cols as nat);
    assert(transpose_grid(transpose_grid(a@)) =~~= a@);
}

/// Row `i` of `a` against column `j` of `b` is column `j` of `b`, as a row of
/// the transpose of `b`, against column `i` of the transpose of `a`.
proof fn lemma_dot_transposed<T: Scalar>(
    a: Seq<Seq<T>>,
    b: Seq<Seq<T>>,
    rows: nat,
    inner: nat,
    cols: nat,
    i: int,
    j: int,
    n: nat,
)
    requires
        is_grid(a, rows, inner),
        is_grid(b, inner, cols),
        0 <= i < rows,
        0 <= j < cols,
        n <= inner,
    ensures
        dot_prefix(transpose_grid(b)[j], transpose_grid(a), i, n) == dot_prefix(a[i], b, j, n),
    decreases n,
{
    if n > 0 {
        lemma_dot_transposed(a, b, rows, inner, cols, i, j, (n - 1) as nat);
        T::times_commutes(a[i][n - 1], b[n - 1][j]);
    }
}

/// The transpose of a product is the product of the transposes, in the
/// other order.
pub proof fn lemma_product_transpose<T: Scalar>(a: Matrix<T>, b: Matrix<T>)
    requires
        a.wf(),
        b.wf(),
        a.cols == b.rows,
    ensures
        product_grid(transpose_grid(b@), transpose_grid(a@)) == transpose_grid(
            product_grid(a@, b@),
        ),
{
    a.lemma_view_is_grid();
    b.lemma_view_is_grid();
    let rows = a.rows as nat;
    let inner = a.cols as nat;
    let cols = b.cols as nat;
    lemma_transpose_shape(a@, rows, inner);
    lemma_transpose_shape(b@, inner, cols);
    lemma_product_shape(a@, b@, rows, inner, cols);
    lemma_product_shape(transpose_grid(b@), transpose_grid(a@), cols, inner, rows);
    let left = product_grid(transpose_grid(b@), transpose_grid(a@));
    let right = transpose_grid(product_grid(a@, b@));
    assert forall|j: int, i: int| 0 <= j < cols && 0 <= i < rows implies #[trigger] left[j][i]
        == right[j][i] by {
        lemma_dot_transposed(a@, b@, rows, inner, cols, i, j, inner);
    }
    assert(left =~~= right);
}

} // verus!
