//! Clamps its input to a closed range `[min, max]`; a matrix is clamped
//! element by element.
use crate::context::Context;
use crate::matrix::Matrix;
use crate::scalar::Scalar;
use vstd::prelude::*;

verus! {

/// `x` limited to `[lo, hi]`: `lo` below it, `hi` above it, `x` inside.
pub open spec fn clamp<T: Scalar>(x: T, lo: T, hi: T) -> T {
    if x.value() < lo.value() {
        lo
    } else if hi.value() < x.value() {
        hi
    } else {
        x
    }
}

/// Clamping to a range with `lo <= hi` gives a value in the range; a value
/// already in the range is kept, one below it gives `lo`, one above it gives
/// `hi`. Clamping twice is clamping once, and clamping keeps the order of
/// its inputs.
pub proof fn lemma_clamp<T: Scalar>(x: T, y: T, lo: T, hi: T)
    requires
        lo.value() <= hi.value(),
    ensures
        lo.value() <= clamp(x, lo, hi).value() <= hi.value(),
        lo.value() <= x.value() <= hi.value() ==> clamp(x, lo, hi) == x,
        x.value() < lo.value() ==> clamp(x, lo, hi) == lo,
        hi.value() < x.value() ==> clamp(x, lo, hi) == hi,
        clamp(clamp(x, lo, hi), lo, hi) == clamp(x, lo, hi),
        x.value() <= y.value() ==> clamp(x, lo, hi).value() <= clamp(y, lo, hi).value(),
{
}

/// `x` limited to `[lo, hi]`; `lo` must not exceed `hi`.
pub fn clamp_scalar<T: Scalar>(x: T, lo: T, hi: T) -> (r: T)
    requires
        lo.value() <= hi.value(),
    ensures
        r == clamp(x, lo, hi),
        lo.value() <= r.value() <= hi.value(),
{
    if x.lt(lo) {
        lo
    } else if hi.lt(x) {
        hi
    } else {
        x
    }
}

/// The bounds of the clamp block.
pub struct Parameters<T: Scalar> {
    pub min: T,
    pub max: T,
}

impl<T: Scalar> Parameters<T> {
    pub fn new(min: T, max: T) -> (p: Self)
        ensures
            p.min == min,
            p.max == max,
    {
        Parameters { min, max }
    }
}

/// Clamps its input to the range of its parameters.
pub struct ClampBlock<T: Scalar> {
    pub buffer: Option<T>,
}

impl<T: Scalar> Default for ClampBlock<T> {
    fn default() -> (b: Self)
        ensures
            b.buffer is None,
    {
        ClampBlock { buffer: None }
    }
}

impl<T: Scalar> ClampBlock<T> {
    /// The input limited to `[min, max]`; `min` must not exceed `max`.
    pub fn process<C: Context>(&mut self, parameters: &Parameters<T>, _context: &C, input: T) -> (out: T)
        requires
            parameters.min.value() <= parameters.max.value(),
        ensures
            out == clamp(input, parameters.min, parameters.max),
            final(self).buffer == Some(out),
    {
        let out = clamp_scalar(input, parameters.min, parameters.max);
        self.buffer = Some(out);
        out
    }

    /// Each element of the input limited to `[min, max]`.
    pub fn process_matrix<const NROWS: usize, const NCOLS: usize, C: Context>(
        &mut self,
        parameters: &Parameters<T>,
        _context: &C,
        input: &Matrix<NROWS, NCOLS, T>,
    ) -> (out: Matrix<NROWS, NCOLS, T>)
        requires
            parameters.min.value() <= parameters.max.value(),
        ensures
            *final(self) == *old(self),
            forall|r: int, c: int| 0 <= r < NROWS && 0 <= c < NCOLS ==> #[trigger] out.at(r, c)
                == clamp(input.at(r, c), parameters.min, parameters.max),
    {
        let lo = parameters.min;
        let hi = parameters.max;
        let mut out = Matrix::<NROWS, NCOLS, T>::zeroed();
        let mut c: usize = 0;
        while c < NCOLS
            invariant
                0 <= c <= NCOLS,
                    lo.value() <= hi.value(),
                forall|i: int, j: int| 0 <= i < NROWS && 0 <= j < c ==> (#[trigger] out.at(i, j)) == clamp(input.at(i, j), lo, hi),
            decreases NCOLS - c,
        {
            let mut r: usize = 0;
            while r < NROWS
                invariant
                    0 <= r <= NROWS,
                    0 <= c < NCOLS,
                        lo.value() <= hi.value(),
                    forall|i: int, j: int| 0 <= i < NROWS && 0 <= j < c ==> (#[trigger] out.at(i, j)) == clamp(input.at(i, j), lo, hi),
                    forall|i: int| 0 <= i < r ==> (#[trigger] out.at(i, c as int)) == clamp(input.at(i, (c as int)), lo, hi),
                decreases NROWS - r,
            {
                let v = clamp_scalar(input.get(r, c), lo, hi);
                out.set(r, c, v);
                r = r + 1;
            }
            c = c + 1;
        }
        out
    }
}

} // verus!
