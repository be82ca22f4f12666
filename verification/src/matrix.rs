//! A dense rectangular matrix of fixed-point values, the shared shape of the
//! coordinate, force, momentum and affinity buffers.

use vstd::prelude::*;

use crate::fixed::CLAMP_MAX;

verus! {

/// An `rows x cols` matrix of fixed-point values.
pub struct Matrix {
    pub rows: usize,
    pub cols: usize,
    pub data: Vec<Vec<i64>>,
}

impl View for Matrix {
    type V = Seq<Seq<i64>>;

    open spec fn view(&self) -> Seq<Seq<i64>> {
        Seq::new(self.data@.len(), |j: int| self.data@[j]@)
    }
}

impl Matrix {
    /// Structural soundness: the buffer really is `rows x cols`, every entry
    /// lies in the fixed-point range, and the side lengths are small enough
    /// that any machine that can hold the matrix can also count its entries.
    pub open spec fn wf(&self) -> bool {
        &&& self.data@.len() == self.rows
        &&& self.rows <= 0x1_0000_0000
        &&& self.cols <= 0x1_0000_0000
        &&& forall|j: int|
            0 <= j < self.rows ==> (#[trigger] self.data@[j])@.len() == self.cols
        &&& forall|j: int, c: int|
            0 <= j < self.rows && 0 <= c < self.cols ==> -CLAMP_MAX
                <= (#[trigger] self.data@[j]@[c]) <= CLAMP_MAX
    }

    /// All entries of a view lie in `[lo, hi]`.
    pub open spec fn entries_in(s: Seq<Seq<i64>>, lo: i64, hi: i64) -> bool {
        forall|j: int, c: int|
            0 <= j < s.len() && 0 <= c < s[j].len() ==> lo <= #[trigger] s[j][c] <= hi
    }

    /// A fresh matrix with every entry equal to `v`.
    pub fn new_filled(rows: usize, cols: usize, v: i64) -> (m: Matrix)
        requires
            rows <= 0x1_0000_0000,
            cols <= 0x1_0000_0000,
            -CLAMP_MAX <= v <= CLAMP_MAX,
        ensures
            m.wf(),
            m.rows == rows,
            m.cols == cols,
            m@.len() == rows,
            forall|j: int| 0 <= j < rows ==> (#[trigger] m@[j]).len() == cols,
            forall|j: int, c: int| 0 <= j < rows && 0 <= c < cols ==> #[trigger] m@[j][c] == v,
    {
        let mut data: Vec<Vec<i64>> = Vec::new();
        let mut j: usize = 0;
        while j < rows
            invariant
                j <= rows,
                data@.len() == j,
                forall|a: int| 0 <= a < j ==> (#[trigger] data@[a])@.len() == cols,
                forall|a: int, c: int|
                    0 <= a < j && 0 <= c < cols ==> #[trigger] data@[a]@[c] == v,
            decreases rows - j,
        {
            let mut row: Vec<i64> = Vec::new();
            let mut c: usize = 0;
            while c < cols
                invariant
                    c <= cols,
                    row@.len() == c,
                    forall|b: int| 0 <= b < c ==> #[trigger] row@[b] == v,
                decreases cols - c,
            {
                row.push(v);
                c += 1;
            }
            data.push(row);
            j += 1;
        }
        Matrix { rows, cols, data }
    }

    /// The number of rows.
    pub fn nrows(&self) -> (r: usize)
        ensures
            r == self.rows,
    {
        self.rows
    }

    /// The number of columns.
    pub fn ncols(&self) -> (r: usize)
        ensures
            r == self.cols,
    {
        self.cols
    }

    /// Read one entry.
    pub fn get(&self, j: usize, c: usize) -> (r: i64)
        requires
            self.wf(),
            j < self.rows,
            c < self.cols,
        ensures
            r == self@[j as int][c as int],
    {
        self.data[j][c]
    }

    /// Overwrite one entry; everything else is untouched.
    pub fn set(&mut self, j: usize, c: usize, v: i64)
        requires
            old(self).wf(),
            j < old(self).rows,
            c < old(self).cols,
            -CLAMP_MAX <= v <= CLAMP_MAX,
        ensures
            final(self).wf(),
            final(self).rows == old(self).rows,
            final(self).cols == old(self).cols,
            final(self)@.len() == old(self)@.len(),
            forall|a: int| 0 <= a < old(self).rows ==> (#[trigger] final(self)@[a]).len()
                == old(self)@[a].len(),
            final(self)@[j as int][c as int] == v,
            forall|a: int, b: int|
                0 <= a < old(self).rows && 0 <= b < old(self).cols && !(a == j && b == c)
                    ==> #[trigger] final(self)@[a][b] == old(self)@[a][b],
    {
        self.data[j][c] = v;
    }

    /// Set every entry to `v`.
    pub fn fill(&mut self, v: i64)
        requires
            old(self).wf(),
            -CLAMP_MAX <= v <= CLAMP_MAX,
        ensures
            final(self).wf(),
            final(self).rows == old(self).rows,
            final(self).cols == old(self).cols,
            final(self)@.len() == old(self)@.len(),
            forall|a: int| 0 <= a < old(self).rows ==> (#[trigger] final(self)@[a]).len()
                == old(self)@[a].len(),
            forall|a: int, b: int|
                0 <= a < old(self).rows && 0 <= b < old(self).cols
                    ==> #[trigger] final(self)@[a][b] == v,
    {
        let rows = self.rows;
        let cols = self.cols;
        let mut j: usize = 0;
        while j < rows
            invariant
                self.wf(),
                self.rows == rows,
                self.cols == cols,
                -CLAMP_MAX <= v <= CLAMP_MAX,
                j <= rows,
                self@.len() == rows,
                forall|a: int| 0 <= a < rows ==> (#[trigger] self@[a]).len() == cols,
                forall|a: int, b: int|
                    0 <= a < j && 0 <= b < cols ==> #[trigger] self@[a][b] == v,
            decreases rows - j,
        {
            let mut c: usize = 0;
            while c < cols
                invariant
                    self.wf(),
                    self.rows == rows,
                    self.cols == cols,
                    -CLAMP_MAX <= v <= CLAMP_MAX,
                    j < rows,
                    c <= cols,
                    self@.len() == rows,
                    forall|a: int| 0 <= a < rows ==> (#[trigger] self@[a]).len() == cols,
                    forall|a: int, b: int|
                        0 <= a < j && 0 <= b < cols ==> #[trigger] self@[a][b] == v,
                    forall|b: int| 0 <= b < c ==> #[trigger] self@[j as int][b] == v,
                decreases cols - c,
            {
                self.set(j, c, v);
                c += 1;
            }
            j += 1;
        }
    }
}

} // verus!
