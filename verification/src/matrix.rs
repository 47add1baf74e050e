//! Dense matrices with shape-checked arithmetic.

use vstd::prelude::*;
use crate::error::Error;
use crate::scalar::Scalar;

verus! {

/// The rows of a table, each as a sequence.
pub open spec fn grid_of<T>(rows: Seq<Vec<T>>) -> Seq<Seq<T>> {
    Seq::new(rows.len(), |i: int| rows[i]@)
}

/// `g` has `rows` rows of `cols` entries each, and neither is zero.
pub open spec fn is_grid<T>(g: Seq<Seq<T>>, rows: nat, cols: nat) -> bool {
    &&& rows >= 1
    &&& cols >= 1
    &&& g.len() == rows
    &&& forall|i: int| 0 <= i < g.len() ==> (#[trigger] g[i]).len() == cols
}

/// `g` is a grid of some shape.
pub open spec fn rectangular<T>(g: Seq<Seq<T>>) -> bool {
    g.len() >= 1 && is_grid(g, g.len(), g[0].len())
}

/// The grid of the given shape that holds zero everywhere.
pub open spec fn zero_grid<T: Scalar>(rows: nat, cols: nat) -> Seq<Seq<T>> {
    Seq::new(rows, |i: int| Seq::new(cols, |j: int| T::zero_spec()))
}

/// Entry by entry, `a[i][j] + b[i][j]`.
pub open spec fn sum_grid<T: Scalar>(a: Seq<Seq<T>>, b: Seq<Seq<T>>) -> Seq<Seq<T>> {
    Seq::new(a.len(), |i: int| Seq::new(a[i].len(), |j: int| a[i][j].plus_spec(b[i][j])))
}

/// Entry by entry, `a[i][j] - b[i][j]`.
pub open spec fn difference_grid<T: Scalar>(a: Seq<Seq<T>>, b: Seq<Seq<T>>) -> Seq<Seq<T>> {
    Seq::new(a.len(), |i: int| Seq::new(a[i].len(), |j: int| a[i][j].minus_spec(b[i][j])))
}

/// Entry by entry, `a[i][j] * b[i][j]`.
pub open spec fn hadamard_grid<T: Scalar>(a: Seq<Seq<T>>, b: Seq<Seq<T>>) -> Seq<Seq<T>> {
    Seq::new(a.len(), |i: int| Seq::new(a[i].len(), |j: int| a[i][j].times_spec(b[i][j])))
}

/// The number of entries in a row of `g`; zero where `g` has no row.
pub open spec fn width<T>(g: Seq<Seq<T>>) -> nat {
    if g.len() == 0 {
        0
    } else {
        g[0].len()
    }
}

/// The sum `row[0] * b[0][j] + ... + row[n - 1] * b[n - 1][j]`, taken from
/// zero, left to right.
pub open spec fn dot_prefix<T: Scalar>(row: Seq<T>, b: Seq<Seq<T>>, j: int, n: nat) -> T
    decreases n,
{
    if n == 0 {
        T::zero_spec()
    } else {
        dot_prefix(row, b, j, (n - 1) as nat).plus_spec(row[n - 1].times_spec(b[n - 1][j]))
    }
}

/// The matrix product: entry `(i, j)` is row `i` of `a` against column `j`
/// of `b`.
pub open spec fn product_grid<T: Scalar>(a: Seq<Seq<T>>, b: Seq<Seq<T>>) -> Seq<Seq<T>> {
    Seq::new(a.len(), |i: int| Seq::new(width(b), |j: int| dot_prefix(a[i], b, j, width(a))))
}

/// Rows and columns exchanged: entry `(j, i)` is `g[i][j]`.
pub open spec fn transpose_grid<T>(g: Seq<Seq<T>>) -> Seq<Seq<T>> {
    Seq::new(width(g), |j: int| Seq::new(g.len(), |i: int| g[i][j]))
}

/// A matrix: `rows` rows of `cols` numbers, never resized.
pub struct Matrix<T> {
    pub rows: usize,
    pub cols: usize,
    pub data: Vec<Vec<T>>,
}

impl<T> View for Matrix<T> {
    type V = Seq<Seq<T>>;

    open spec fn view(&self) -> Seq<Seq<T>> {
        grid_of(self.data@)
    }
}

impl<T: Scalar> Matrix<T> {
    /// Every row has `cols` entries, there are `rows` of them, and neither
    /// count is zero.
    pub open spec fn wf(&self) -> bool {
        &&& self.rows >= 1
        &&& self.cols >= 1
        &&& self.data@.len() == self.rows
        &&& forall|i: int|
            0 <= i < self.data@.len() ==> (#[trigger] self.data@[i])@.len() == self.cols
    }

    /// A well-formed matrix shows a grid of its own shape.
    pub proof fn lemma_view_is_grid(&self)
        requires
            self.wf(),
        ensures
            is_grid(self@, self.rows as nat, self.cols as nat),
            rectangular(self@),
    {
    }

    /// The shape of a well-formed matrix is the shape of the grid it shows.
    pub proof fn lemma_shape_of_view(&self, rows: nat, cols: nat)
        requires
            self.wf(),
            is_grid(self@, rows, cols),
        ensures
            self.rows == rows,
            self.cols == cols,
    {
        assert(self@[0] == self.data@[0]@);
    }

    /// Whether `other` has the shape of `self`.
    pub open spec fn same_shape(&self, other: &Matrix<T>) -> bool {
        self.rows == other.rows && self.cols == other.cols
    }

    /// The zero matrix of the given shape.
    pub fn new(rows: usize, cols: usize) -> (m: Matrix<T>)
        requires
            rows >= 1,
            cols >= 1,
        ensures
            m.wf(),
            m.rows == rows,
            m.cols == cols,
            m@ == zero_grid::<T>(rows as nat, cols as nat),
    {
        let mut data: Vec<Vec<T>> = Vec::new();
        let mut i: usize = 0;
        while i < rows
            invariant
                i <= rows,
                data@.len() == i,
                forall|k: int|
                    0 <= k < i ==> (#[trigger] data@[k])@ == Seq::new(
                        cols as nat,
                        |j: int| T::zero_spec(),
                    ),
            decreases rows - i,
        {
            let mut row: Vec<T> = Vec::new();
            let mut j: usize = 0;
            while j < cols
                invariant
                    j <= cols,
                    row@.len() == j,
                    forall|c: int| 0 <= c < j ==> #[trigger] row@[c] == T::zero_spec(),
                decreases cols - j,
            {
                row.push(T::zero());
                j = j + 1;
            }
            data.push(row);
            i = i + 1;
        }
        Matrix { rows, cols, data }
    }

    /// The matrix whose rows are those of `vec`.
    pub fn from(vec: Vec<Vec<T>>) -> (m: Matrix<T>)
        requires
            rectangular(grid_of(vec@)),
        ensures
            m.wf(),
            m.rows == vec@.len(),
            m.cols == vec@[0]@.len(),
            m@ == grid_of(vec@),
            m.data == vec,
    {
        assert forall|i: int| 0 <= i < vec@.len() implies (#[trigger] vec@[i])@.len()
            == vec@[0]@.len() by {
            assert(grid_of(vec@)[i] == vec@[i]@);
        }
        Matrix { rows: vec.len(), cols: vec[0].len(), data: vec }
    }

    /// Replaces every entry by what `function` returns for it.
    pub fn map<F: Fn(T) -> T>(&mut self, function: &F)
        requires
            old(self).wf(),
            forall|r: int, c: int|
                0 <= r < old(self).rows && 0 <= c < old(self).cols ==> call_requires(
                    function,
                    (#[trigger] old(self)@[r][c],),
                ),
        ensures
            final(self).wf(),
            final(self).same_shape(old(self)),
            forall|r: int, c: int|
                0 <= r < old(self).rows && 0 <= c < old(self).cols ==> call_ensures(
                    function,
                    (old(self)@[r][c],),
                    #[trigger] final(self)@[r][c],
                ),
    {
        let rows: usize = self.rows;
        let cols: usize = self.cols;
        let mut i: usize = 0;
        assert forall|r: int, c: int| 0 <= r < rows && 0 <= c < cols implies call_requires(
            function,
            (#[trigger] self.data@[r]@[c],),
        ) by {
            assert(self@[r][c] == self.data@[r]@[c]);
        }
        while i < rows
            invariant
                i <= rows,
                self.wf(),
                self.rows == rows,
                self.cols == cols,
                old(self).wf(),
                old(self).rows == rows,
                old(self).cols == cols,
                forall|r: int, c: int|
                    0 <= r < rows && 0 <= c < cols ==> call_requires(
                        function,
                        (#[trigger] old(self).data@[r]@[c],),
                    ),
                forall|r: int, c: int|
                    0 <= r < i && 0 <= c < cols ==> call_ensures(
                        function,
                        (old(self).data@[r]@[c],),
                        #[trigger] self.data@[r]@[c],
                    ),
                forall|r: int| i <= r < rows ==> #[trigger] self.data@[r] == old(self).data@[r],
            decreases rows - i,
        {
            let mut j: usize = 0;
            while j < cols
                invariant
                    i < rows,
                    j <= cols,
                    self.wf(),
                    self.rows == rows,
                    self.cols == cols,
                    old(self).wf(),
                    old(self).rows == rows,
                    old(self).cols == cols,
                    forall|r: int, c: int|
                        0 <= r < rows && 0 <= c < cols ==> call_requires(
                            function,
                            (#[trigger] old(self).data@[r]@[c],),
                        ),
                    forall|r: int, c: int|
                        0 <= r < i && 0 <= c < cols ==> call_ensures(
                            function,
                            (old(self).data@[r]@[c],),
                            #[trigger] self.data@[r]@[c],
                        ),
                    forall|c: int|
                        0 <= c < j ==> call_ensures(
                            function,
                            (old(self).data@[i as int]@[c],),
                            #[trigger] self.data@[i as int]@[c],
                        ),
                    forall|c: int|
                        j <= c < cols ==> #[trigger] self.data@[i as int]@[c] == old(
                            self,
                        ).data@[i as int]@[c],
                    forall|r: int| i < r < rows ==> #[trigger] self.data@[r] == old(self).data@[r],
                decreases cols - j,
            {
                let value: T = function(self.data[i][j]);
                self.data[i][j] = value;
                j = j + 1;
            }
            i = i + 1;
        }
    }

    /// Replaces every entry `x` of `self` by `op(x, y)`, where `y` is the
    /// entry of `other` at the same place.
    fn combine<F: Fn(T, T) -> T>(&mut self, other: &Matrix<T>, op: F)
        requires
            old(self).wf(),
            other.wf(),
            old(self).same_shape(other),
            forall|x: T, y: T| call_requires(op, (x, y)),
        ensures
            final(self).wf(),
            final(self).same_shape(old(self)),
            forall|r: int, c: int|
                0 <= r < old(self).rows && 0 <= c < old(self).cols ==> call_ensures(
                    op,
                    (old(self)@[r][c], other@[r][c]),
                    #[trigger] final(self)@[r][c],
                ),
    {
        let rows: usize = self.rows;
        let cols: usize = self.cols;
        let mut i: usize = 0;
        while i < rows
            invariant
                i <= rows,
                self.wf(),
                other.wf(),
                self.rows == rows,
                self.cols == cols,
                other.rows == rows,
                other.cols == cols,
                old(self).wf(),
                old(self).rows == rows,
                old(self).cols == cols,
                forall|x: T, y: T| call_requires(op, (x, y)),
                forall|r: int, c: int|
                    0 <= r < i && 0 <= c < cols ==> call_ensures(
                        op,
                        (old(self).data@[r]@[c], other.data@[r]@[c]),
                        #[trigger] self.data@[r]@[c],
                    ),
                forall|r: int| i <= r < rows ==> #[trigger] self.data@[r] == old(self).data@[r],
            decreases rows - i,
        {
            let mut j: usize = 0;
            while j < cols
                invariant
                    i < rows,
                    j <= cols,
                    self.wf(),
                    other.wf(),
                    self.rows == rows,
                    self.cols == cols,
                    other.rows == rows,
                    other.cols == cols,
                    old(self).wf(),
                    old(self).rows == rows,
                    old(self).cols == cols,
                    forall|x: T, y: T| call_requires(op, (x, y)),
                    forall|r: int, c: int|
                        0 <= r < i && 0 <= c < cols ==> call_ensures(
                            op,
                            (old(self).data@[r]@[c], other.data@[r]@[c]),
                            #[trigger] self.data@[r]@[c],
                        ),
                    forall|c: int|
                        0 <= c < j ==> call_ensures(
                            op,
                            (old(self).data@[i as int]@[c], other.data@[i as int]@[c]),
                            #[trigger] self.data@[i as int]@[c],
                        ),
                    forall|c: int|
                        j <= c < cols ==> #[trigger] self.data@[i as int]@[c] == old(
                            self,
                        ).data@[i as int]@[c],
                    forall|r: int| i < r < rows ==> #[trigger] self.data@[r] == old(self).data@[r],
                decreases cols - j,
            {
                let value: T = op(self.data[i][j], other.data[i][j]);
                self.data[i][j] = value;
                j = j + 1;
            }
            i = i + 1;
        }
    }

    /// The error that names the shapes of `self` and `other`.
    pub open spec fn mismatch(&self, other: &Matrix<T>) -> Error {
        Error::ShapeMismatch {
            left_rows: self.rows,
            left_cols: self.cols,
            right_rows: other.rows,
            right_cols: other.cols,
        }
    }

    fn refuse(&self, other: &Matrix<T>) -> (e: Error)
        ensures
            e == self.mismatch(other),
    {
        Error::ShapeMismatch {
            left_rows: self.rows,
            left_cols: self.cols,
            right_rows: other.rows,
            right_cols: other.cols,
        }
    }

    /// Adds `other` to `self`, entry by entry. Refused, with `self` left as it
    /// was, unless both have the same shape.
    pub fn add(&mut self, other: &Matrix<T>) -> (r: Result<(), Error>)
        requires
            old(self).wf(),
            other.wf(),
        ensures
            final(self).wf(),
            final(self).same_shape(old(self)),
            old(self).same_shape(other) ==> r is Ok && final(self)@ == sum_grid(old(self)@, other@),
            !old(self).same_shape(other) ==> *final(self) == *old(self) && r == Err::<(), Error>(
                old(self).mismatch(other),
            ),
    {
        if self.rows != other.rows || self.cols != other.cols {
            return Err(self.refuse(other));
        }
        self.combine(other, |x: T, y: T| -> (z: T)
            ensures
                z == x.plus_spec(y),
            { x.plus(y) });
        assert(self@ =~~= sum_grid(old(self)@, other@));
        Ok(())
    }

    /// Subtracts `other` from `self`, entry by entry. Refused, with `self`
    /// left as it was, unless both have the same shape.
    pub fn sub(&mut self, other: &Matrix<T>) -> (r: Result<(), Error>)
        requires
            old(self).wf(),
            other.wf(),
        ensures
            final(self).wf(),
            final(self).same_shape(old(self)),
            old(self).same_shape(other) ==> r is Ok && final(self)@ == difference_grid(
                old(self)@,
                other@,
            ),
            !old(self).same_shape(other) ==> *final(self) == *old(self) && r == Err::<(), Error>(
                old(self).mismatch(other),
            ),
    {
        if self.rows != other.rows || self.cols != other.cols {
            return Err(self.refuse(other));
        }
        self.combine(other, |x: T, y: T| -> (z: T)
            ensures
                z == x.minus_spec(y),
            { x.minus(y) });
        assert(self@ =~~= difference_grid(old(self)@, other@));
        Ok(())
    }

    /// Multiplies `self` by `other`, entry by entry. Refused, with `self`
    /// left as it was, unless both have the same shape.
    pub fn dot(&mut self, other: &Matrix<T>) -> (r: Result<(), Error>)
        requires
            old(self).wf(),
            other.wf(),
        ensures
            final(self).wf(),
            final(self).same_shape(old(self)),
            old(self).same_shape(other) ==> r is Ok && final(self)@ == hadamard_grid(
                old(self)@,
                other@,
            ),
            !old(self).same_shape(other) ==> *final(self) == *old(self) && r == Err::<(), Error>(
                old(self).mismatch(other),
            ),
    {
        if self.rows != other.rows || self.cols != other.cols {
            return Err(self.refuse(other));
        }
        self.combine(other, |x: T, y: T| -> (z: T)
            ensures
                z == x.times_spec(y),
            { x.times(y) });
        assert(self@ =~~= hadamard_grid(old(self)@, other@));
        Ok(())
    }

    /// The matrix product `self * other`, a new matrix of shape
    /// `(self.rows, other.cols)`. Refused unless `self` has as many columns
    /// as `other` has rows.
    pub fn mul(&self, other: &Matrix<T>) -> (r: Result<Matrix<T>, Error>)
        requires
            self.wf(),
            other.wf(),
        ensures
            self.cols == other.rows ==> r is Ok && r->Ok_0.wf() && r->Ok_0.rows == self.rows
                && r->Ok_0.cols == other.cols && r->Ok_0@ == product_grid(self@, other@),
            self.cols != other.rows ==> r == Err::<Matrix<T>, Error>(self.mismatch(other)),
    {
        if self.cols != other.rows {
            return Err(self.refuse(other));
        }
        let rows: usize = self.rows;
        let cols: usize = other.cols;
        let inner: usize = self.cols;
        let mut matrix: Matrix<T> = Matrix::new(rows, cols);
        let mut i: usize = 0;
        while i < rows
            invariant
                i <= rows,
                self.wf(),
                other.wf(),
                matrix.wf(),
                self.rows == rows,
                self.cols == inner,
                other.rows == inner,
                other.cols == cols,
                matrix.rows == rows,
                matrix.cols == cols,
                forall|r: int, c: int|
                    0 <= r < i && 0 <= c < cols ==> #[trigger] matrix.data@[r]@[c] == dot_prefix(
                        self@[r],
                        other@,
                        c,
                        inner as nat,
                    ),
            decreases rows - i,
        {
            let mut j: usize = 0;
            while j < cols
                invariant
                    i < rows,
                    j <= cols,
                    self.wf(),
                    other.wf(),
                    matrix.wf(),
                    self.rows == rows,
                    self.cols == inner,
                    other.rows == inner,
                    other.cols == cols,
                    matrix.rows == rows,
                    matrix.cols == cols,
                    forall|r: int, c: int|
                        0 <= r < i && 0 <= c < cols ==> #[trigger] matrix.data@[r]@[c]
                            == dot_prefix(
                            self@[r],
                            other@,
                            c,
                            inner as nat,
                        ),
                    forall|c: int|
                        0 <= c < j ==> #[trigger] matrix.data@[i as int]@[c] == dot_prefix(
                            self@[i as int],
                            other@,
                            c,
                            inner as nat,
                        ),
                decreases cols - j,
            {
                let mut sum: T = T::zero();
                let mut k: usize = 0;
                while k < inner
                    invariant
                        i < rows,
                        j < cols,
                        k <= inner,
                        self.wf(),
                        other.wf(),
                        self.rows == rows,
                        self.cols == inner,
                        other.rows == inner,
                        other.cols == cols,
                        sum == dot_prefix(self@[i as int], other@, j as int, k as nat),
                    decreases inner - k,
                {
                    sum = sum.plus(self.data[i][k].times(other.data[k][j]));
                    k = k + 1;
                }
                matrix.data[i][j] = sum;
                j = j + 1;
            }
            i = i + 1;
        }
        assert(matrix@ =~~= product_grid(self@, other@));
        Ok(matrix)
    }

    /// The transpose: a new matrix of shape `(self.cols, self.rows)`.
    pub fn rev(&self) -> (m: Matrix<T>)
        requires
            self.wf(),
        ensures
            m.wf(),
            m.rows == self.cols,
            m.cols == self.rows,
            m@ == transpose_grid(self@),
    {
        let rows: usize = self.rows;
        let cols: usize = self.cols;
        let mut matrix: Matrix<T> = Matrix::new(cols, rows);
        let mut i: usize = 0;
        while i < rows
            invariant
                i <= rows,
                self.wf(),
                matrix.wf(),
                self.rows == rows,
                self.cols == cols,
                matrix.rows == cols,
                matrix.cols == rows,
                forall|r: int, c: int|
                    0 <= r < i && 0 <= c < cols ==> #[trigger] matrix.data@[c]@[r]
                        == self.data@[r]@[c],
            decreases rows - i,
        {
            let mut j: usize = 0;
            while j < cols
                invariant
                    i < rows,
                    j <= cols,
                    self.wf(),
                    matrix.wf(),
                    self.rows == rows,
                    self.cols == cols,
                    matrix.rows == cols,
                    matrix.cols == rows,
                    forall|r: int, c: int|
                        0 <= r < i && 0 <= c < cols ==> #[trigger] matrix.data@[c]@[r]
                            == self.data@[r]@[c],
                    forall|c: int|
                        0 <= c < j ==> #[trigger] matrix.data@[c]@[i as int]
                            == self.data@[i as int]@[c],
                decreases cols - j,
            {
                matrix.data[j][i] = self.data[i][j];
                j = j + 1;
            }
            i = i + 1;
        }
        assert(matrix@ =~~= transpose_grid(self@));
        matrix
    }

    /// Whether `table` can be the rows of a matrix: it has a row, its first
    /// row has an entry, and all its rows are as long as the first.
    pub fn is_table(table: &Vec<Vec<T>>) -> (ok: bool)
        ensures
            ok == rectangular(grid_of(table@)),
    {
        if table.len() == 0 {
            return false;
        }
        let cols: usize = table[0].len();
        if cols == 0 {
            return false;
        }
        let mut i: usize = 0;
        while i < table.len()
            invariant
                i <= table@.len(),
                table@.len() >= 1,
                cols == table@[0]@.len(),
                cols >= 1,
                forall|k: int| 0 <= k < i ==> (#[trigger] table@[k])@.len() == cols,
            decreases table@.len() - i,
        {
            if table[i].len() != cols {
                assert(grid_of(table@)[i as int] == table@[i as int]@);
                return false;
            }
            i = i + 1;
        }
        true
    }

    /// A matrix of the given shape, each entry a value that `draw` returned.
    pub fn random<G: Fn() -> T>(rows: usize, cols: usize, draw: &G) -> (m: Matrix<T>)
        requires
            rows >= 1,
            cols >= 1,
            call_requires(draw, ()),
        ensures
            m.wf(),
            m.rows == rows,
            m.cols == cols,
            forall|r: int, c: int|
                0 <= r < rows && 0 <= c < cols ==> call_ensures(draw, (), #[trigger] m@[r][c]),
    {
        let mut matrix: Matrix<T> = Matrix::new(rows, cols);
        let mut i: usize = 0;
        while i < rows
            invariant
                i <= rows,
                matrix.wf(),
                matrix.rows == rows,
                matrix.cols == cols,
                call_requires(draw, ()),
                forall|r: int, c: int|
                    0 <= r < i && 0 <= c < cols ==> call_ensures(
                        draw,
                        (),
                        #[trigger] matrix.data@[r]@[c],
                    ),
            decreases rows - i,
        {
            let mut j: usize = 0;
            while j < cols
                invariant
                    i < rows,
                    j <= cols,
                    matrix.wf(),
                    matrix.rows == rows,
                    matrix.cols == cols,
                    call_requires(draw, ()),
                    forall|r: int, c: int|
                        0 <= r < i && 0 <= c < cols ==> call_ensures(
                            draw,
                            (),
                            #[trigger] matrix.data@[r]@[c],
                        ),
                    forall|c: int|
                        0 <= c < j ==> call_ensures(
                            draw,
                            (),
                            #[trigger] matrix.data@[i as int]@[c],
                        ),
                decreases cols - j,
            {
                let value: T = draw();
                matrix.data[i][j] = value;
                j = j + 1;
            }
            i = i + 1;
        }
        matrix
    }
}

/// The rows of `table`, copied.
pub(crate) fn copy_rows<T: Copy>(table: &Vec<Vec<T>>) -> (rows: Vec<Vec<T>>)
    ensures
        grid_of(rows@) == grid_of(table@),
        rows@.len() == table@.len(),
        forall|k: int| 0 <= k < table@.len() ==> (#[trigger] rows@[k])@ == table@[k]@,
{
    let mut rows: Vec<Vec<T>> = Vec::new();
    let mut i: usize = 0;
    while i < table.len()
        invariant
            i <= table@.len(),
            rows@.len() == i,
            forall|k: int| 0 <= k < i ==> (#[trigger] rows@[k])@ == table@[k]@,
        decreases table@.len() - i,
    {
        let mut row: Vec<T> = Vec::new();
        let mut j: usize = 0;
        while j < table[i].len()
            invariant
                i < table@.len(),
                j <= table@[i as int]@.len(),
                row@.len() == j,
                forall|c: int| 0 <= c < j ==> #[trigger] row@[c] == table@[i as int]@[c],
            decreases table@[i as int]@.len() - j,
        {
            row.push(table[i][j]);
            j = j + 1;
        }
        rows.push(row);
        i = i + 1;
    }
    rows
}

impl<T: Scalar> Clone for Matrix<T> {
    /// A copy with the same shape and the same entries.
    fn clone(&self) -> (m: Matrix<T>)
        ensures
            m.rows == self.rows,
            m.cols == self.cols,
            m@ == self@,
            self.wf() ==> m.wf(),
    {
        Matrix { rows: self.rows, cols: self.cols, data: copy_rows(&self.data) }
    }
}

} // verus!
