//! Element-wise comparison of two inputs, and comparison of an input with a
//! fixed value. A comparison gives 1 when it holds and 0 otherwise, in the
//! type of the inputs.
use crate::context::Context;
use crate::matrix::Matrix;
use crate::scalar::Scalar;
use crate::text::{bytes_equal, ParseEnumError};
use vstd::prelude::*;
use vstd::string::StringSliceAdditionalSpecFns;

verus! {

/// The type of comparison operation to perform.
#[derive(Clone, Copy, Debug, PartialEq, Eq, Structural)]
pub enum ComparisonType {
    Equal,
    NotEqual,
    GreaterThan,
    GreaterOrEqual,
    LessThan,
    LessOrEqual,
}

/// The variant named `s` (`"Equal"`, `"NotEqual"`, `"GreaterThan"`, `"GreaterOrEqual"`, `"LessThan"`, `"LessOrEqual"`).
pub open spec fn spec_parse_comparison_type(s: Seq<u8>) -> Option<ComparisonType> {
    if s == "Equal".spec_bytes() {
        Some(ComparisonType::Equal)
    } else if s == "NotEqual".spec_bytes() {
        Some(ComparisonType::NotEqual)
    } else if s == "GreaterThan".spec_bytes() {
        Some(ComparisonType::GreaterThan)
    } else if s == "GreaterOrEqual".spec_bytes() {
        Some(ComparisonType::GreaterOrEqual)
    } else if s == "LessThan".spec_bytes() {
        Some(ComparisonType::LessThan)
    } else if s == "LessOrEqual".spec_bytes() {
        Some(ComparisonType::LessOrEqual)
    } else {
        None
    }
}

impl ComparisonType {
    /// The variant named `s` (`"Equal"`, `"NotEqual"`, `"GreaterThan"`, `"GreaterOrEqual"`, `"LessThan"`, `"LessOrEqual"`); `None` for any other text.
    pub fn parse(s: &str) -> (r: Option<Self>)
        ensures
            r == spec_parse_comparison_type(s.spec_bytes()),
    {
        let b = s.as_bytes();
        if bytes_equal(b, "Equal".as_bytes()) {
            Some(ComparisonType::Equal)
        } else if bytes_equal(b, "NotEqual".as_bytes()) {
            Some(ComparisonType::NotEqual)
        } else if bytes_equal(b, "GreaterThan".as_bytes()) {
            Some(ComparisonType::GreaterThan)
        } else if bytes_equal(b, "GreaterOrEqual".as_bytes()) {
            Some(ComparisonType::GreaterOrEqual)
        } else if bytes_equal(b, "LessThan".as_bytes()) {
            Some(ComparisonType::LessThan)
        } else if bytes_equal(b, "LessOrEqual".as_bytes()) {
            Some(ComparisonType::LessOrEqual)
        } else {
            None
        }
    }

    /// The variant named `method`, which must name one.
    pub fn new(method: &str) -> (r: Self)
        requires
            spec_parse_comparison_type(method.spec_bytes()) is Some,
        ensures
            Some(r) == spec_parse_comparison_type(method.spec_bytes()),
    {
        Self::parse(method).unwrap()
    }
}

impl core::str::FromStr for ComparisonType {
    type Err = ParseEnumError;

    fn from_str(s: &str) -> (r: Result<Self, Self::Err>)
        ensures
            r == match spec_parse_comparison_type(s.spec_bytes()) {
                Some(v) => Ok(v),
                None => Err(ParseEnumError),
            },
    {
        match Self::parse(s) {
            Some(v) => Ok(v),
            None => Err(ParseEnumError),
        }
    }
}

/// Whether `a` and `b` satisfy the comparison `t`.
pub open spec fn compare(t: ComparisonType, a: int, b: int) -> bool {
    match t {
        ComparisonType::Equal => a == b,
        ComparisonType::NotEqual => a != b,
        ComparisonType::GreaterThan => a > b,
        ComparisonType::GreaterOrEqual => a >= b,
        ComparisonType::LessThan => a < b,
        ComparisonType::LessOrEqual => a <= b,
    }
}

/// 1 when `b` holds, 0 otherwise.
pub open spec fn indicator(b: bool) -> int {
    if b { 1 } else { 0 }
}

/// The comparisons follow the signed order of the integers: `LessThan` is
/// `<`, `GreaterThan` is its converse, `Equal` is equality, and each of the
/// other three is the negation of one of these. Exactly one of `LessThan`,
/// `Equal` and `GreaterThan` holds of any two values.
pub proof fn lemma_compare_order(a: int, b: int)
    ensures
        compare(ComparisonType::LessThan, a, b) <==> a < b,
        compare(ComparisonType::Equal, a, b) <==> a == b,
        compare(ComparisonType::GreaterThan, a, b) == compare(ComparisonType::LessThan, b, a),
        compare(ComparisonType::GreaterOrEqual, a, b) == !compare(ComparisonType::LessThan, a, b),
        compare(ComparisonType::LessOrEqual, a, b) == !compare(ComparisonType::GreaterThan, a, b),
        compare(ComparisonType::NotEqual, a, b) == !compare(ComparisonType::Equal, a, b),
        indicator(compare(ComparisonType::LessThan, a, b)) + indicator(compare(ComparisonType::Equal, a, b))
            + indicator(compare(ComparisonType::GreaterThan, a, b)) == 1,
{
}

/// Compares two scalars.
pub fn compare_scalars<T: Scalar>(t: ComparisonType, a: T, b: T) -> (r: bool)
    ensures
        r == compare(t, a.value(), b.value()),
{
    match t {
        ComparisonType::Equal => a.eq_to(b),
        ComparisonType::NotEqual => !a.eq_to(b),
        ComparisonType::GreaterThan => b.lt(a),
        ComparisonType::GreaterOrEqual => !a.lt(b),
        ComparisonType::LessThan => a.lt(b),
        ComparisonType::LessOrEqual => !b.lt(a),
    }
}

/// Parameters for the comparison block.
pub struct Parameters {
    pub comparison_type: ComparisonType,
}

impl Parameters {
    /// `comparison_type` must name a [`ComparisonType`].
    pub fn new(comparison_type: &str) -> (p: Self)
        requires
            spec_parse_comparison_type(comparison_type.spec_bytes()) is Some,
        ensures
            Some(p.comparison_type) == spec_parse_comparison_type(comparison_type.spec_bytes()),
    {
        Parameters { comparison_type: ComparisonType::new(comparison_type) }
    }
}

/// Compares two inputs of the same shape element by element.
pub struct ComparisonBlock<T: Scalar> {
    pub buffer: Option<T>,
}

impl<T: Scalar> Default for ComparisonBlock<T> {
    fn default() -> (b: Self)
        ensures
            b.buffer is None,
    {
        ComparisonBlock { buffer: None }
    }
}

impl<T: Scalar> ComparisonBlock<T> {
    /// 1 when `input.0` and `input.1` satisfy the comparison, 0 otherwise.
    pub fn process<C: Context>(&mut self, parameters: &Parameters, _context: &C, input: (T, T)) -> (out: T)
        ensures
            out.value() == indicator(compare(parameters.comparison_type, input.0.value(), input.1.value())),
            final(self).buffer == Some(out),
    {
        let out = T::from_bool(compare_scalars(parameters.comparison_type, input.0, input.1));
        self.buffer = Some(out);
        out
    }

    /// Compares two matrices element by element.
    pub fn process_matrix<const NROWS: usize, const NCOLS: usize, C: Context>(
        &mut self,
        parameters: &Parameters,
        _context: &C,
        input: (&Matrix<NROWS, NCOLS, T>, &Matrix<NROWS, NCOLS, T>),
    ) -> (out: Matrix<NROWS, NCOLS, T>)
        ensures
            *final(self) == *old(self),
            forall|r: int, c: int| 0 <= r < NROWS && 0 <= c < NCOLS ==> (#[trigger] out.at(r, c)).value() == indicator(
                compare(parameters.comparison_type, input.0.at(r, c).value(), input.1.at(r, c).value()),
            ),
    {
        let t = parameters.comparison_type;
        let mut out = Matrix::<NROWS, NCOLS, T>::zeroed();
        let mut c: usize = 0;
        while c < NCOLS
            invariant
                0 <= c <= NCOLS,
                forall|r: int, j: int| 0 <= r < NROWS && 0 <= j < c ==> (#[trigger] out.at(r, j)).value() == indicator(
                    compare(t, input.0.at(r, j).value(), input.1.at(r, j).value()),
                ),
            decreases NCOLS - c,
        {
            let mut r: usize = 0;
            while r < NROWS
                invariant
                    0 <= r <= NROWS,
                    0 <= c < NCOLS,
                    forall|i: int, j: int| 0 <= i < NROWS && 0 <= j < c ==> (#[trigger] out.at(i, j)).value() == indicator(
                        compare(t, input.0.at(i, j).value(), input.1.at(i, j).value()),
                    ),
                    forall|i: int| 0 <= i < r ==> (#[trigger] out.at(i, c as int)).value() == indicator(
                        compare(t, input.0.at(i, c as int).value(), input.1.at(i, c as int).value()),
                    ),
                decreases NROWS - r,
            {
                let v = T::from_bool(compare_scalars(t, input.0.get(r, c), input.1.get(r, c)));
                out.set(r, c, v);
                r = r + 1;
            }
            c = c + 1;
        }
        out
    }
}

} // verus!
