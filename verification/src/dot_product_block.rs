//! Dot product of two matrices of the same shape: the sum of the products
//! of their corresponding elements.
use crate::context::Context;
use crate::matrix::Matrix;
use crate::scalar::Scalar;
use vstd::prelude::*;

verus! {

/// The sum of `xs[k] * ys[k]` over the first `n` indices.
pub open spec fn dot_prefix(xs: Seq<int>, ys: Seq<int>, n: int) -> int
    decreases n,
{
    if n <= 0 {
        0
    } else {
        dot_prefix(xs, ys, n - 1) + xs[n - 1] * ys[n - 1]
    }
}

/// The dot product of two matrices of the same shape.
pub open spec fn dot<const NROWS: usize, const NCOLS: usize, T: Scalar>(
    a: Matrix<NROWS, NCOLS, T>,
    b: Matrix<NROWS, NCOLS, T>,
) -> int {
    dot_prefix(a.values(), b.values(), (NROWS * NCOLS) as int)
}

/// The dot product block takes no parameters.
#[derive(Clone, Copy, Debug, Default)]
pub struct Parameters {}

impl Parameters {
    pub fn new() -> (p: Self) {
        Parameters {}
    }
}

/// Computes the dot product of its two inputs.
pub struct DotProductBlock<T: Scalar> {
    pub buffer: Option<T>,
}

impl<T: Scalar> Default for DotProductBlock<T> {
    fn default() -> (b: Self)
        ensures
            b.buffer is None,
    {
        DotProductBlock { buffer: None }
    }
}

impl<T: Scalar> DotProductBlock<T> {
    /// The dot product of the two inputs, which must fit in `T`.
    pub fn process<const NROWS: usize, const NCOLS: usize, C: Context>(
        &mut self,
        _parameters: &Parameters,
        _context: &C,
        input: (&Matrix<NROWS, NCOLS, T>, &Matrix<NROWS, NCOLS, T>),
    ) -> (out: T)
        requires
            NROWS * NCOLS <= isize::MAX,
            T::min_value() <= dot(*input.0, *input.1) <= T::max_value(),
        ensures
            out.value() == dot(*input.0, *input.1),
            final(self).buffer == Some(out),
    {
        let (a, b) = input;
        let n: usize = NROWS * NCOLS;
        let ghost xs = a.values();
        let ghost ys = b.values();
        let mut acc: i128 = 0;
        let mut k: usize = 0;
        while k < n
            invariant
                0 <= k <= n,
                n == NROWS * NCOLS,
                n <= isize::MAX,
                xs == a.values(),
                ys == b.values(),
                acc == dot_prefix(xs, ys, k as int),
                -(k * 0x1_0000_0000_0000_0000) <= acc <= k * 0x1_0000_0000_0000_0000,
            decreases n - k,
        {
            let x = a.get_linear(k);
            let y = b.get_linear(k);
            let xi = x.to_i128();
            let yi = y.to_i128();
            proof {
                T::lemma_range();
                x.lemma_value(x);
                y.lemma_value(y);
                assert(-0x1_0000_0000_0000_0000 <= xi * yi <= 0x1_0000_0000_0000_0000) by (nonlinear_arith)
                    requires
                        -0x8000_0000 <= xi <= 0xffff_ffff,
                        -0x8000_0000 <= yi <= 0xffff_ffff,
                ;
            }
            let p = xi * yi;
            acc = acc + p;
            k = k + 1;
        }
        let out = T::from_i128(acc);
        self.buffer = Some(out);
        out
    }
}

} // verus!
