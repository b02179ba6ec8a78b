//! The matrix type: a two-dimensional array of 64-bit words.
//!
//! Feature, distance and score matrices hold binary64 bit patterns; index and
//! count matrices hold plain integers. The storage is an `ndarray` array; its
//! methods are reached through the small wrappers at the top of this file,
//! whose contracts are taken on trust from that crate.

use crate::ieee::{finite, is_finite};
use vstd::prelude::*;

verus! {

/// The storage of a matrix: an `ndarray` array of two axes. Verus cannot be
/// told of the array type itself, whose declaration is bound by a trait of
/// `ndarray`, so the array is kept behind this struct and Verus sees none of
/// it.
#[verifier::external_body]
#[derive(Debug)]
pub struct Cells {
    array: ndarray::Array2<u64>,
}

/// The rows of the storage, top to bottom; row `i` holds at position `j` the
/// word stored at `[i, j]`.
pub uninterp spec fn cell_rows(cells: Cells) -> Seq<Seq<u64>>;

/// The length of the second axis of the storage, which it has even with no
/// rows.
pub uninterp spec fn cell_width(cells: Cells) -> nat;

/// Whether `ndarray` can build an array of `rows` by `cols` words: neither
/// axis nor the byte size of the whole may exceed `isize::MAX`.
pub open spec fn shape_fits(rows: nat, cols: nat) -> bool {
    &&& rows <= isize::MAX
    &&& cols <= isize::MAX
    &&& rows * cols * 8 <= isize::MAX
}

/// `Array2::zeros((rows, cols))`: an array of that shape with 0 in every cell.
/// `ndarray` panics when the product of the non-zero axis lengths overflows
/// `isize`, and the allocation when the byte size does; `requires` leaves both
/// out.
#[verifier::external_body]
fn array_zeros(rows: usize, cols: usize) -> (cells: Cells)
    requires
        shape_fits(rows as nat, cols as nat),
    ensures
        cell_rows(cells).len() == rows,
        cell_width(cells) == cols,
        forall|i: int, j: int| 0 <= i < rows && 0 <= j < cols ==> #[trigger] cell_rows(cells)[i][j] == 0,
{
    Cells { array: ndarray::Array2::zeros((rows, cols)) }
}

/// `ArrayBase::nrows`: the length of the first axis.
#[verifier::external_body]
fn array_nrows(cells: &Cells) -> (n: usize)
    ensures
        n == cell_rows(*cells).len(),
{
    cells.array.nrows()
}

/// `ArrayBase::ncols`: the length of the second axis.
#[verifier::external_body]
fn array_ncols(cells: &Cells) -> (n: usize)
    ensures
        n == cell_width(*cells),
{
    cells.array.ncols()
}

/// `ArrayBase::index` with a two-part index: the word at `[i, j]`. `ndarray`
/// panics when the index is out of bounds; `requires` leaves that out.
#[verifier::external_body]
fn array_get(cells: &Cells, i: usize, j: usize) -> (word: u64)
    requires
        i < cell_rows(*cells).len(),
        j < cell_width(*cells),
    ensures
        word == cell_rows(*cells)[i as int][j as int],
{
    cells.array[[i, j]]
}

/// `ArrayBase::index_mut` with a two-part index, then a store: the cell at
/// `[i, j]` becomes `word`, every other cell and the shape stay. `ndarray`
/// panics when the index is out of bounds; `requires` leaves that out, and
/// with it every way in which the store could unwind.
#[verifier::external_body]
fn array_set(cells: &mut Cells, i: usize, j: usize, word: u64)
    requires
        i < cell_rows(*old(cells)).len(),
        j < cell_width(*old(cells)),
    ensures
        cell_rows(*final(cells)).len() == cell_rows(*old(cells)).len(),
        cell_width(*final(cells)) == cell_width(*old(cells)),
        forall|r: int, c: int|
            0 <= r < cell_rows(*old(cells)).len() && 0 <= c < cell_width(*old(cells)) ==> #[trigger] cell_rows(
                *final(cells),
            )[r][c] == if r == i && c == j {
                word
            } else {
                cell_rows(*old(cells))[r][c]
            },
    no_unwind
{
    cells.array[[i, j]] = word;
}

/// `ArrayBase::clone`: an array of the same shape with the same words.
#[verifier::external_body]
fn array_clone(cells: &Cells) -> (copy: Cells)
    ensures
        cell_rows(copy).len() == cell_rows(*cells).len(),
        cell_width(copy) == cell_width(*cells),
        forall|r: int, c: int|
            0 <= r < cell_rows(*cells).len() && 0 <= c < cell_width(*cells) ==> #[trigger] cell_rows(copy)[r][c]
                == cell_rows(*cells)[r][c],
{
    Cells { array: cells.array.clone() }
}

/// A two-dimensional array of 64-bit words with a fixed shape.
#[derive(Debug)]
pub struct Matrix {
    cells: Cells,
}

/// The rows held by a vector of vectors.
pub open spec fn rows_of(v: Seq<Vec<u64>>) -> Seq<Seq<u64>> {
    Seq::new(v.len(), |i: int| v[i]@)
}

/// Whether `ndarray` can build an array of `rows` by `cols` words.
pub fn can_hold(rows: usize, cols: usize) -> (r: bool)
    ensures
        r == shape_fits(rows as nat, cols as nat),
{
    let limit: usize = isize::MAX as usize;
    if rows > limit || cols > limit {
        return false;
    }
    if cols == 0 {
        assert(rows * cols * 8 == 0) by (nonlinear_arith)
            requires
                cols == 0,
        ;
        return true;
    }
    let per_column: usize = (limit / 8) / cols;
    proof {
        let m = limit as int;
        let c = cols as int;
        let r = rows as int;
        assert((r <= (m / 8) / c) <==> (r * c * 8 <= m)) by (nonlinear_arith)
            requires
                c > 0,
                r >= 0,
                m >= 0,
        ;
    }
    rows <= per_column
}

/// A shape that fits still fits with fewer columns.
pub proof fn narrower_shape_fits(rows: nat, cols: nat, fewer: nat)
    requires
        shape_fits(rows, cols),
        fewer <= cols,
    ensures
        shape_fits(rows, fewer),
{
    assert(rows * fewer * 8 <= rows * cols * 8) by (nonlinear_arith)
        requires
            fewer <= cols,
    ;
}

impl View for Matrix {
    type V = Seq<Seq<u64>>;

    /// The matrix as a sequence of rows, each as long as the matrix is wide.
    open spec fn view(&self) -> Seq<Seq<u64>> {
        Seq::new(self.rows(), |i: int| Seq::new(self.cols(), |j: int| self.at(i, j)))
    }
}

impl Matrix {
    /// Every matrix has a shape that its storage can hold.
    #[verifier::type_invariant]
    spec fn holds(self) -> bool {
        shape_fits(cell_rows(self.cells).len(), cell_width(self.cells))
    }

    /// The number of rows.
    pub closed spec fn rows(&self) -> nat {
        cell_rows(self.cells).len()
    }

    /// The number of columns.
    pub closed spec fn cols(&self) -> nat {
        cell_width(self.cells)
    }

    /// The word at row `i`, column `j`.
    pub closed spec fn at(&self, i: int, j: int) -> u64 {
        cell_rows(self.cells)[i][j]
    }

    /// Two matrices with the same shape and the same words.
    pub open spec fn same_as(&self, other: &Matrix) -> bool {
        &&& self.rows() == other.rows()
        &&& self.cols() == other.cols()
        &&& forall|i: int, j: int|
            0 <= i < self.rows() && 0 <= j < self.cols() ==> #[trigger] self.at(i, j) == other.at(i, j)
    }

    /// Every cell holds the pattern of a finite number.
    pub open spec fn all_finite(&self) -> bool {
        forall|i: int, j: int| 0 <= i < self.rows() && 0 <= j < self.cols() ==> finite(#[trigger] self.at(i, j))
    }

    /// Row `i` of the view is exactly the sequence `row` when the two agree
    /// cell by cell.
    pub proof fn row_is(&self, i: int, row: Seq<u64>)
        requires
            0 <= i < self.rows(),
            row.len() == self.cols(),
            forall|j: int| 0 <= j < self.cols() ==> self.at(i, j) == #[trigger] row[j],
        ensures
            self@[i] == row,
    {
        assert(self@[i] =~= row);
    }

    /// Matrices with the same shape and words have the same view.
    pub proof fn same_view(&self, other: &Matrix)
        requires
            self.same_as(other),
        ensures
            self@ == other@,
    {
        assert forall|i: int| 0 <= i < self.rows() implies #[trigger] self@[i] == other@[i] by {
            assert(self@[i] =~= other@[i]);
        }
        assert(self@ =~= other@);
    }

    /// A matrix of the given shape with the word 0, the pattern of `0.0`, in
    /// every cell.
    pub fn zeros(rows: usize, cols: usize) -> (m: Matrix)
        requires
            shape_fits(rows as nat, cols as nat),
        ensures
            m.rows() == rows,
            m.cols() == cols,
            forall|i: int, j: int| 0 <= i < rows && 0 <= j < cols ==> #[trigger] m.at(i, j) == 0,
    {
        Matrix { cells: array_zeros(rows, cols) }
    }

    /// The number of rows. Every matrix has a shape that its storage can
    /// hold.
    pub fn nrows(&self) -> (n: usize)
        ensures
            n == self.rows(),
            shape_fits(self.rows(), self.cols()),
    {
        proof {
            use_type_invariant(self);
        }
        array_nrows(&self.cells)
    }

    /// The number of columns. Every matrix has a shape that its storage can
    /// hold.
    pub fn ncols(&self) -> (n: usize)
        ensures
            n == self.cols(),
            shape_fits(self.rows(), self.cols()),
    {
        proof {
            use_type_invariant(self);
        }
        array_ncols(&self.cells)
    }

    /// The word at `[i, j]`.
    pub fn get(&self, i: usize, j: usize) -> (word: u64)
        requires
            i < self.rows(),
            j < self.cols(),
        ensures
            word == self.at(i as int, j as int),
    {
        array_get(&self.cells, i, j)
    }

    /// Stores `word` at `[i, j]`; the shape and the other cells stay.
    pub fn set(&mut self, i: usize, j: usize, word: u64)
        requires
            i < old(self).rows(),
            j < old(self).cols(),
        ensures
            final(self).rows() == old(self).rows(),
            final(self).cols() == old(self).cols(),
            forall|r: int, c: int|
                0 <= r < old(self).rows() && 0 <= c < old(self).cols() ==> #[trigger] final(self).at(r, c)
                    == if r == i && c == j {
                    word
                } else {
                    old(self).at(r, c)
                },
    {
        proof {
            use_type_invariant(&*self);
        }
        array_set(&mut self.cells, i, j, word)
    }

    /// Whether every cell holds the pattern of a finite number.
    pub fn is_all_finite(&self) -> (r: bool)
        ensures
            r == self.all_finite(),
    {
        let rows = self.nrows();
        let cols = self.ncols();
        let mut i: usize = 0;
        while i < rows
            invariant
                rows == self.rows(),
                cols == self.cols(),
                i <= rows,
                forall|a: int, b: int| 0 <= a < i && 0 <= b < cols ==> finite(#[trigger] self.at(a, b)),
            decreases rows - i,
        {
            let mut j: usize = 0;
            while j < cols
                invariant
                    rows == self.rows(),
                    cols == self.cols(),
                    i < rows,
                    j <= cols,
                    forall|a: int, b: int| 0 <= a < i && 0 <= b < cols ==> finite(#[trigger] self.at(a, b)),
                    forall|b: int| 0 <= b < j ==> finite(#[trigger] self.at(i as int, b)),
                decreases cols - j,
            {
                if !is_finite(self.get(i, j)) {
                    return false;
                }
                j += 1;
            }
            i += 1;
        }
        true
    }

    /// Row `i` as a vector.
    pub fn row(&self, i: usize) -> (words: Vec<u64>)
        requires
            i < self.rows(),
        ensures
            words@ == self@[i as int],
    {
        let cols = self.ncols();
        let mut words: Vec<u64> = Vec::new();
        let mut j: usize = 0;
        while j < cols
            invariant
                i < self.rows(),
                cols == self.cols(),
                j <= cols,
                words@.len() == j,
                forall|b: int| 0 <= b < j ==> #[trigger] words@[b] == self.at(i as int, b),
            decreases cols - j,
        {
            words.push(self.get(i, j));
            j += 1;
        }
        assert(words@ =~= self@[i as int]);
        words
    }

    /// All rows, top to bottom.
    pub fn to_rows(&self) -> (rows: Vec<Vec<u64>>)
        ensures
            rows_of(rows@) == self@,
    {
        let n = self.nrows();
        let mut rows: Vec<Vec<u64>> = Vec::new();
        let mut i: usize = 0;
        while i < n
            invariant
                n == self.rows(),
                i <= n,
                rows@.len() == i,
                forall|a: int| 0 <= a < i ==> (#[trigger] rows@[a])@ == self@[a],
            decreases n - i,
        {
            rows.push(self.row(i));
            i += 1;
        }
        assert(rows_of(rows@) =~= self@);
        rows
    }

    /// The matrix with the given rows, each `cols` long. There is none when a
    /// row has another length or the shape is more than an array can hold.
    pub fn from_rows(cols: usize, rows: &Vec<Vec<u64>>) -> (made: Option<Matrix>)
        ensures
            made is Some <==> shape_fits(rows.len() as nat, cols as nat) && forall|i: int|
                0 <= i < rows.len() ==> (#[trigger] rows@[i]).len() == cols,
            made is Some ==> made->Some_0.rows() == rows.len() && made->Some_0.cols() == cols
                && made->Some_0@ == rows_of(rows@),
    {
        let n = rows.len();
        if !can_hold(n, cols) {
            return None;
        }
        let mut m = Matrix::zeros(n, cols);
        let mut i: usize = 0;
        while i < n
            invariant
                n == rows.len(),
                m.rows() == n,
                m.cols() == cols,
                i <= n,
                forall|a: int| 0 <= a < i ==> (#[trigger] rows@[a]).len() == cols,
                forall|a: int, b: int| 0 <= a < i && 0 <= b < cols ==> #[trigger] m.at(a, b) == (rows@[a])@[b],
            decreases n - i,
        {
            if rows[i].len() != cols {
                return None;
            }
            let mut j: usize = 0;
            while j < cols
                invariant
                    n == rows.len(),
                    m.rows() == n,
                    m.cols() == cols,
                    i < n,
                    j <= cols,
                    forall|a: int| 0 <= a <= i ==> (#[trigger] rows@[a]).len() == cols,
                    forall|a: int, b: int|
                        0 <= a < i && 0 <= b < cols ==> #[trigger] m.at(a, b) == (rows@[a])@[b],
                    forall|b: int| 0 <= b < j ==> #[trigger] m.at(i as int, b) == (rows@[i as int])@[b],
                decreases cols - j,
            {
                m.set(i, j, rows[i][j]);
                j += 1;
            }
            i += 1;
        }
        proof {
            assert forall|a: int| 0 <= a < n implies #[trigger] m@[a] == rows_of(rows@)[a] by {
                m.row_is(a, (rows@[a])@);
            }
            assert(m@ =~= rows_of(rows@));
        }
        Some(m)
    }
}

impl Clone for Matrix {
    fn clone(&self) -> (copy: Matrix)
        ensures
            copy.same_as(self),
            copy@ == self@,
    {
        proof {
            use_type_invariant(self);
        }
        let copy = Matrix { cells: array_clone(&self.cells) };
        proof {
            copy.same_view(self);
        }
        copy
    }
}

} // verus!
