//! Dense matrices and the fixed-size blocks that components stamp.

use crate::scalar::{total2, Complex64, Real64, Scalar};
use vstd::prelude::*;

verus! {

/// A dense matrix, stored row by row.
#[derive(Debug)]
pub struct DMatrix<T> {
    pub nrows: usize,
    pub ncols: usize,
    pub data: Vec<Vec<T>>,
}

/// A 2×2 block; `m12` is the entry of the first row and the second column.
#[derive(Clone, Copy, Debug)]
pub struct Matrix2x2<T> {
    pub m11: T,
    pub m12: T,
    pub m21: T,
    pub m22: T,
}

/// A column of two entries.
#[derive(Clone, Copy, Debug)]
pub struct Matrix2x1<T> {
    pub x: T,
    pub y: T,
}

pub type DMatrixf64 = DMatrix<Real64>;

pub type DMatrixc64 = DMatrix<Complex64>;

pub type Matrix2x2f64 = Matrix2x2<Real64>;

pub type Matrix2x2c64 = Matrix2x2<Complex64>;

pub type Matrix2x1f64 = Matrix2x1<Real64>;

pub type Matrix2x1c64 = Matrix2x1<Complex64>;

/// Whether `m` is a table of `nrows` rows of `ncols` entries each.
pub open spec fn has_shape<T>(m: Seq<Seq<T>>, nrows: int, ncols: int) -> bool {
    &&& m.len() == nrows
    &&& forall|i: int| 0 <= i < nrows ==> (#[trigger] m[i]).len() == ncols
}

/// The table of `nrows` rows of `ncols` entries that are all `value`.
pub open spec fn constant_table<T>(nrows: int, ncols: int, value: T) -> Seq<Seq<T>> {
    Seq::new(nrows as nat, |i: int| Seq::new(ncols as nat, |j: int| value))
}

impl<T> View for DMatrix<T> {
    type V = Seq<Seq<T>>;

    /// The rows, each as the sequence of its entries.
    open spec fn view(&self) -> Seq<Seq<T>> {
        Seq::new(self.data@.len(), |i: int| self.data@[i]@)
    }
}

impl<T: Copy> DMatrix<T> {
    /// The rows are as many and as long as `nrows` and `ncols` say.
    pub open spec fn wf(&self) -> bool {
        &&& self.data@.len() == self.nrows
        &&& forall|i: int| 0 <= i < self.nrows ==> (#[trigger] self.data@[i])@.len() == self.ncols
    }

    /// A well-formed matrix shows a table of its own shape.
    pub proof fn lemma_view_shape(&self)
        requires
            self.wf(),
        ensures
            has_shape(self@, self.nrows as int, self.ncols as int),
    {
        assert forall|i: int| 0 <= i < self.nrows implies (#[trigger] self@[i]).len()
            == self.ncols by {
            assert(self@[i] == self.data@[i]@);
        }
    }

    /// The matrix with the given rows, if each of them has `ncols` entries.
    pub fn from_rows(rows: Vec<Vec<T>>, ncols: usize) -> (m: Option<Self>)
        ensures
            m is Some <==> forall|i: int| 0 <= i < rows@.len() ==> (#[trigger] rows@[i])@.len() == ncols,
            m matches Some(d) ==> d.wf() && d.nrows == rows@.len() && d.ncols == ncols && d.data@
                == rows@,
    {
        let n = rows.len();
        let mut i: usize = 0;
        while i < n
            invariant
                n == rows@.len(),
                i <= n,
                forall|k: int| 0 <= k < i ==> (#[trigger] rows@[k])@.len() == ncols,
            decreases n - i,
        {
            if rows[i].len() != ncols {
                return None;
            }
            i += 1;
        }
        Some(DMatrix { nrows: n, ncols, data: rows })
    }

    /// Whether the matrix is well formed and has `nrows` rows and `ncols`
    /// columns.
    pub fn has_dimensions(&self, nrows: usize, ncols: usize) -> (b: bool)
        ensures
            b == (self.wf() && self.nrows == nrows && self.ncols == ncols),
    {
        if self.nrows != nrows || self.ncols != ncols || self.data.len() != nrows {
            return false;
        }
        let mut i: usize = 0;
        while i < nrows
            invariant
                i <= nrows,
                nrows == self.nrows,
                ncols == self.ncols,
                self.data@.len() == nrows,
                forall|k: int| 0 <= k < i ==> (#[trigger] self.data@[k])@.len() == ncols,
            decreases nrows - i,
        {
            if self.data[i].len() != ncols {
                return false;
            }
            i += 1;
        }
        true
    }

    /// The entry of row `row` and column `col`.
    pub fn get(&self, row: usize, col: usize) -> (value: T)
        requires
            self.wf(),
            row < self.nrows,
            col < self.ncols,
        ensures
            value == self@[row as int][col as int],
    {
        self.data[row][col]
    }

    /// Replaces the entry of row `row` and column `col` by its sum with
    /// `value`, as `plus` returns it. No other entry changes.
    pub fn accumulate<A: Fn(T, T) -> T>(&mut self, row: usize, col: usize, value: T, plus: &A)
        requires
            old(self).wf(),
            row < old(self).nrows,
            col < old(self).ncols,
            total2(*plus),
        ensures
            final(self).wf(),
            final(self).nrows == old(self).nrows,
            final(self).ncols == old(self).ncols,
            plus.ensures(
                (old(self)@[row as int][col as int], value),
                final(self)@[row as int][col as int],
            ),
            final(self)@ == old(self)@.update(
                row as int,
                old(self)@[row as int].update(col as int, final(self)@[row as int][col as int]),
            ),
    {
        let current = self.data[row][col];
        let sum = plus(current, value);
        self.data[row][col] = sum;
        assert(final(self)@ =~= old(self)@.update(
            row as int,
            old(self)@[row as int].update(col as int, sum),
        ));
    }
}

impl<T: Scalar> DMatrix<T> {
    /// The matrix of `nrows` rows and `ncols` columns whose entries are all
    /// zero.
    pub fn zeros(nrows: usize, ncols: usize) -> (m: Self)
        ensures
            m.wf(),
            m.nrows == nrows,
            m.ncols == ncols,
            m@ == constant_table(nrows as int, ncols as int, T::spec_zero()),
    {
        let mut data: Vec<Vec<T>> = Vec::new();
        let mut i: usize = 0;
        while i < nrows
            invariant
                i <= nrows,
                data@.len() == i,
                forall|k: int| 0 <= k < i ==> (#[trigger] data@[k])@ == Seq::new(
                    ncols as nat,
                    |j: int| T::spec_zero(),
                ),
            decreases nrows - i,
        {
            let mut row: Vec<T> = Vec::new();
            let mut j: usize = 0;
            while j < ncols
                invariant
                    j <= ncols,
                    row@.len() == j,
                    forall|k: int| 0 <= k < j ==> #[trigger] row@[k] == T::spec_zero(),
                decreases ncols - j,
            {
                row.push(T::zero());
                j += 1;
            }
            assert(row@ =~= Seq::new(ncols as nat, |j: int| T::spec_zero()));
            data.push(row);
            i += 1;
        }
        let m = DMatrix { nrows, ncols, data };
        assert(m@ =~= constant_table(nrows as int, ncols as int, T::spec_zero()));
        m
    }
}

impl<T: Scalar> Matrix2x2<T> {
    /// The block with the given entries, listed row by row.
    pub fn new(m11: T, m12: T, m21: T, m22: T) -> (m: Self)
        ensures
            m == (Matrix2x2 { m11, m12, m21, m22 }),
    {
        Matrix2x2 { m11, m12, m21, m22 }
    }

    /// The block whose four entries are zero.
    pub fn zeros() -> (m: Self)
        ensures
            m == (Matrix2x2 {
                m11: T::spec_zero(),
                m12: T::spec_zero(),
                m21: T::spec_zero(),
                m22: T::spec_zero(),
            }),
    {
        Matrix2x2 { m11: T::zero(), m12: T::zero(), m21: T::zero(), m22: T::zero() }
    }
}

impl<T: Scalar> Matrix2x1<T> {
    /// The column with entries `x` above `y`.
    pub fn new(x: T, y: T) -> (m: Self)
        ensures
            m == (Matrix2x1 { x, y }),
    {
        Matrix2x1 { x, y }
    }

    /// The column whose two entries are zero.
    pub fn zeros() -> (m: Self)
        ensures
            m == (Matrix2x1 { x: T::spec_zero(), y: T::spec_zero() }),
    {
        Matrix2x1 { x: T::zero(), y: T::zero() }
    }
}

} // verus!
