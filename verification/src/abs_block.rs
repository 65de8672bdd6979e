//! Absolute value of a signed integer input; a matrix element by element.
use crate::context::Context;
use crate::matrix::Matrix;
use crate::scalar::Scalar;
use vstd::prelude::*;

verus! {

/// `|x|`
pub open spec fn abs_value(x: int) -> int {
    if x < 0 {
        -x
    } else {
        x
    }
}

/// The absolute value is never negative, is the value or its negation, is
/// zero only at zero, and does not see the sign.
pub proof fn lemma_abs_value(x: int)
    ensures
        abs_value(x) >= 0,
        abs_value(x) == x || abs_value(x) == -x,
        abs_value(x) == 0 <==> x == 0,
        abs_value(-x) == abs_value(x),
        x >= 0 ==> abs_value(x) == x,
{
}

/// Signed integer types whose absolute value the block computes. The
/// smallest value of each type has no absolute value in it.
pub trait Abs: Scalar {
    fn abs(self) -> (r: Self)
        requires
            self.value() > Self::min_value(),
        ensures
            r.value() == abs_value(self.value()),
    ;
}

impl Abs for i8 {
    fn abs(self) -> (r: Self) {
        if self < 0 {
            -self
        } else {
            self
        }
    }
}

impl Abs for i16 {
    fn abs(self) -> (r: Self) {
        if self < 0 {
            -self
        } else {
            self
        }
    }
}

impl Abs for i32 {
    fn abs(self) -> (r: Self) {
        if self < 0 {
            -self
        } else {
            self
        }
    }
}

/// The absolute value block takes no parameters.
pub struct Parameter {}

impl Parameter {
    pub fn new() -> (p: Self) {
        Parameter {}
    }
}

impl Default for Parameter {
    fn default() -> (p: Self) {
        Parameter::new()
    }
}

/// Computes the absolute value of a scalar or of each element of a matrix.
pub struct AbsBlock<T: Abs> {
    pub buffer: Option<T>,
}

impl<T: Abs> Default for AbsBlock<T> {
    fn default() -> (b: Self)
        ensures
            b.buffer is None,
    {
        AbsBlock { buffer: None }
    }
}

impl<T: Abs> AbsBlock<T> {
    /// `|input|`; the input must not be the type's smallest value.
    pub fn process<C: Context>(&mut self, _parameters: &Parameter, _context: &C, input: T) -> (out: T)
        requires
            input.value() > T::min_value(),
        ensures
            out.value() == abs_value(input.value()),
            final(self).buffer == Some(out),
    {
        let out = input.abs();
        self.buffer = Some(out);
        out
    }

    /// The absolute value of each element; no element may be the type's
    /// smallest value.
    pub fn process_matrix<const NROWS: usize, const NCOLS: usize, C: Context>(
        &mut self,
        _parameters: &Parameter,
        _context: &C,
        input: &Matrix<NROWS, NCOLS, T>,
    ) -> (out: Matrix<NROWS, NCOLS, T>)
        requires
            forall|r: int, c: int| 0 <= r < NROWS && 0 <= c < NCOLS ==> (#[trigger] input.at(r, c)).value() > T::min_value(),
        ensures
            *final(self) == *old(self),
            forall|r: int, c: int| 0 <= r < NROWS && 0 <= c < NCOLS ==> (#[trigger] out.at(r, c)).value()
                == abs_value(input.at(r, c).value()),
    {
        let mut out = Matrix::<NROWS, NCOLS, T>::zeroed();
        let mut c: usize = 0;
        while c < NCOLS
            invariant
                0 <= c <= NCOLS,
                    forall|i: int, j: int| 0 <= i < NROWS && 0 <= j < NCOLS ==> (#[trigger] input.at(i, j)).value() > T::min_value(),
                forall|i: int, j: int| 0 <= i < NROWS && 0 <= j < c ==> (#[trigger] out.at(i, j)).value() == abs_value(input.at(i, j).value()),
            decreases NCOLS - c,
        {
            let mut r: usize = 0;
            while r < NROWS
                invariant
                    0 <= r <= NROWS,
                    0 <= c < NCOLS,
                        forall|i: int, j: int| 0 <= i < NROWS && 0 <= j < NCOLS ==> (#[trigger] input.at(i, j)).value() > T::min_value(),
                    forall|i: int, j: int| 0 <= i < NROWS && 0 <= j < c ==> (#[trigger] out.at(i, j)).value() == abs_value(input.at(i, j).value()),
                    forall|i: int| 0 <= i < r ==> (#[trigger] out.at(i, c as int)).value() == abs_value(input.at(i, (c as int)).value()),
                decreases NROWS - r,
            {
                let v = input.get(r, c).abs();
                out.set(r, c, v);
                r = r + 1;
            }
            c = c + 1;
        }
        out
    }
}

} // verus!
