//! Compares an input with a fixed value; for a matrix, each element is
//! compared. A comparison gives 1 when it holds and 0 otherwise.
use crate::comparison_block::{compare, compare_scalars, indicator, spec_parse_comparison_type, ComparisonType};
use crate::context::Context;
use crate::matrix::Matrix;
use crate::scalar::Scalar;
use vstd::prelude::*;
use vstd::string::StringSliceAdditionalSpecFns;

verus! {

/// The comparison and the scalar value the input is compared with.
pub struct Parameter<S: Scalar> {
    pub comparison_type: ComparisonType,
    pub value: S,
}

impl<S: Scalar> Parameter<S> {
    /// `comparison_type` must name a [`ComparisonType`].
    pub fn new(comparison_type: &str, value: S) -> (p: Self)
        requires
            spec_parse_comparison_type(comparison_type.spec_bytes()) is Some,
        ensures
            Some(p.comparison_type) == spec_parse_comparison_type(comparison_type.spec_bytes()),
            p.value == value,
    {
        Parameter { comparison_type: ComparisonType::new(comparison_type), value }
    }
}

/// Compares the input with the parameter's value; the output has the shape of
/// the input.
pub struct CompareToValueBlock<T: Scalar> {
    pub buffer: Option<T>,
}

impl<T: Scalar> Default for CompareToValueBlock<T> {
    fn default() -> (b: Self)
        ensures
            b.buffer is None,
    {
        CompareToValueBlock { buffer: None }
    }
}

impl<T: Scalar> CompareToValueBlock<T> {
    /// 1 when `input` compares as the parameters say with their value, 0 otherwise.
    pub fn process<C: Context>(&mut self, parameters: &Parameter<T>, _context: &C, input: T) -> (out: T)
        ensures
            out.value() == indicator(compare(parameters.comparison_type, input.value(), parameters.value.value())),
            final(self).buffer == Some(out),
    {
        let out = T::from_bool(compare_scalars(parameters.comparison_type, input, parameters.value));
        self.buffer = Some(out);
        out
    }

    /// Compares each element of `input` with the parameter's value.
    pub fn process_matrix<const NROWS: usize, const NCOLS: usize, C: Context>(
        &mut self,
        parameters: &Parameter<T>,
        _context: &C,
        input: &Matrix<NROWS, NCOLS, T>,
    ) -> (out: Matrix<NROWS, NCOLS, T>)
        ensures
            *final(self) == *old(self),
            forall|r: int, c: int| 0 <= r < NROWS && 0 <= c < NCOLS ==> (#[trigger] out.at(r, c)).value() == indicator(
                compare(parameters.comparison_type, input.at(r, c).value(), parameters.value.value()),
            ),
    {
        let t = parameters.comparison_type;
        let value = parameters.value;
        let mut out = Matrix::<NROWS, NCOLS, T>::zeroed();
        let mut c: usize = 0;
        while c < NCOLS
            invariant
                0 <= c <= NCOLS,
                forall|i: int, j: int| 0 <= i < NROWS && 0 <= j < c ==> (#[trigger] out.at(i, j)).value() == indicator(compare(t, input.at(i, j).value(), value.value())),
            decreases NCOLS - c,
        {
            let mut r: usize = 0;
            while r < NROWS
                invariant
                    0 <= r <= NROWS,
                    0 <= c < NCOLS,
                    forall|i: int, j: int| 0 <= i < NROWS && 0 <= j < c ==> (#[trigger] out.at(i, j)).value() == indicator(compare(t, input.at(i, j).value(), value.value())),
                    forall|i: int| 0 <= i < r ==> (#[trigger] out.at(i, c as int)).value() == indicator(compare(t, input.at(i, (c as int)).value(), value.value())),
                decreases NROWS - r,
            {
                let v = T::from_bool(compare_scalars(t, input.get(r, c), value));
                out.set(r, c, v);
                r = r + 1;
            }
            c = c + 1;
        }
        out
    }
}

} // verus!
