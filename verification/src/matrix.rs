//! Fixed-size matrices in column-major order, used as a data transfer object
//! between blocks: `data[c][r]` is the element at row `r`, column `c`.
use crate::scalar::Scalar;
use vstd::prelude::*;

verus! {

/// Matrix in column-major order: `data[c][r]` holds row `r` of column `c`.
/// It enforces no invariant; it only carries data between blocks.
#[derive(Copy, Debug, PartialEq)]
pub struct Matrix<const NROWS: usize, const NCOLS: usize, T: Scalar> {
    pub data: [[T; NROWS]; NCOLS],
}

impl<const NROWS: usize, const NCOLS: usize, T: Scalar> Clone for Matrix<NROWS, NCOLS, T> {
    fn clone(&self) -> (r: Self)
        ensures
            r == *self,
    {
        *self
    }
}

impl<const NROWS: usize, const NCOLS: usize, T: Scalar> Default for Matrix<NROWS, NCOLS, T> {
    fn default() -> (m: Self)
        ensures
            forall|r: int, c: int| 0 <= r < NROWS && 0 <= c < NCOLS ==> #[trigger] m.at(r, c).value() == 0,
    {
        Self::zeroed()
    }
}

impl<const NROWS: usize, const NCOLS: usize, T: Scalar> Matrix<NROWS, NCOLS, T> {
    /// The element at row `r`, column `c`.
    pub open spec fn at(self, r: int, c: int) -> T {
        self.data@[c]@[r]
    }

    /// The values of the elements in column-major order: the element with
    /// linear index `k` is at row `k % NROWS`, column `k / NROWS`.
    pub open spec fn values(self) -> Seq<int> {
        Seq::new((NROWS * NCOLS) as nat, |k: int| self.at(k % (NROWS as int), k / (NROWS as int)).value())
    }

    /// A matrix whose elements are all `v`.
    pub fn filled(v: T) -> (m: Self)
        ensures
            forall|r: int, c: int| 0 <= r < NROWS && 0 <= c < NCOLS ==> #[trigger] m.at(r, c) == v,
    {
        let col: [T; NROWS] = [v; NROWS];
        let m = Matrix { data: [col; NCOLS] };
        assert forall|r: int, c: int| 0 <= r < NROWS && 0 <= c < NCOLS implies #[trigger] m.at(r, c) == v by {
            assert(m.data@[c] == col);
        }
        m
    }

    /// A matrix whose elements are all zero.
    pub fn zeroed() -> (m: Self)
        ensures
            forall|r: int, c: int| 0 <= r < NROWS && 0 <= c < NCOLS ==> #[trigger] m.at(r, c).value() == 0,
    {
        let z = T::zero();
        let col: [T; NROWS] = [z; NROWS];
        let m = Matrix { data: [col; NCOLS] };
        assert forall|r: int, c: int| 0 <= r < NROWS && 0 <= c < NCOLS implies #[trigger] m.at(r, c).value() == 0 by {
            assert(m.data@[c] == col);
            assert(col@[r] == z);
        }
        m
    }

    /// The element at row `r`, column `c`.
    pub fn get(&self, r: usize, c: usize) -> (v: T)
        requires
            r < NROWS,
            c < NCOLS,
        ensures
            v == self.at(r as int, c as int),
    {
        self.data[c][r]
    }

    /// The element at row `r`, column `c` has linear index `c * NROWS + r`:
    /// columns are laid out one after the other.
    pub proof fn lemma_linear_index(self, r: int, c: int)
        requires
            0 <= r < NROWS,
            0 <= c < NCOLS,
        ensures
            0 <= c * NROWS + r < NROWS * NCOLS,
            self.values()[c * NROWS + r] == self.at(r, c).value(),
    {
        assert(0 <= c * NROWS + r < NROWS * NCOLS) by (nonlinear_arith)
            requires
                0 <= r < NROWS,
                0 <= c < NCOLS,
        ;
        vstd::arithmetic::div_mod::lemma_fundamental_div_mod_converse(c * NROWS + r, NROWS as int, c, r);
    }

    /// The element with linear (column-major) index `k`.
    pub fn get_linear(&self, k: usize) -> (v: T)
        requires
            k < NROWS * NCOLS,
        ensures
            v.value() == self.values()[k as int],
            v == self.at((k % NROWS) as int, (k / NROWS) as int),
    {
        assert(NROWS > 0) by (nonlinear_arith)
            requires
                k < NROWS * NCOLS,
                k >= 0,
        ;
        let r = k % NROWS;
        let c = k / NROWS;
        assert(c < NCOLS) by (nonlinear_arith)
            requires
                c == k / NROWS,
                k < NROWS * NCOLS,
                NROWS > 0,
        ;
        assert(self.values().len() == NROWS * NCOLS);
        self.data[c][r]
    }

    /// Replaces the element at row `r`, column `c`.
    pub fn set(&mut self, r: usize, c: usize, v: T)
        requires
            r < NROWS,
            c < NCOLS,
        ensures
            final(self).at(r as int, c as int) == v,
            forall|i: int, j: int|
                0 <= i < NROWS && 0 <= j < NCOLS && (i != r || j != c) ==> #[trigger] final(self).at(i, j)
                    == old(self).at(i, j),
    {
        let mut col = self.data[c];
        col[r] = v;
        self.data[c] = col;
    }
}

} // verus!
