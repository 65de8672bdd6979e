//! The reduction methods of the aggregate block. The block itself works on
//! floating-point matrices and lives with the application code.
use crate::text::{bytes_equal, ParseEnumError};
use vstd::prelude::*;
use vstd::string::StringSliceAdditionalSpecFns;

verus! {

/// How the aggregate block reduces the elements of a matrix to one value.
#[derive(Clone, Copy, Debug, PartialEq, Eq, Structural)]
pub enum AggregateMethod {
    Sum,
    Mean,
    Median,
    Min,
    Max,
}

/// The variant named `s` (`"Sum"`, `"Mean"`, `"Median"`, `"Min"`, `"Max"`).
pub open spec fn spec_parse_aggregate_method(s: Seq<u8>) -> Option<AggregateMethod> {
    if s == "Sum".spec_bytes() {
        Some(AggregateMethod::Sum)
    } else if s == "Mean".spec_bytes() {
        Some(AggregateMethod::Mean)
    } else if s == "Median".spec_bytes() {
        Some(AggregateMethod::Median)
    } else if s == "Min".spec_bytes() {
        Some(AggregateMethod::Min)
    } else if s == "Max".spec_bytes() {
        Some(AggregateMethod::Max)
    } else {
        None
    }
}

impl AggregateMethod {
    /// The variant named `s` (`"Sum"`, `"Mean"`, `"Median"`, `"Min"`, `"Max"`); `None` for any other text.
    pub fn parse(s: &str) -> (r: Option<Self>)
        ensures
            r == spec_parse_aggregate_method(s.spec_bytes()),
    {
        let b = s.as_bytes();
        if bytes_equal(b, "Sum".as_bytes()) {
            Some(AggregateMethod::Sum)
        } else if bytes_equal(b, "Mean".as_bytes()) {
            Some(AggregateMethod::Mean)
        } else if bytes_equal(b, "Median".as_bytes()) {
            Some(AggregateMethod::Median)
        } else if bytes_equal(b, "Min".as_bytes()) {
            Some(AggregateMethod::Min)
        } else if bytes_equal(b, "Max".as_bytes()) {
            Some(AggregateMethod::Max)
        } else {
            None
        }
    }

    /// The variant named `method`, which must name one.
    pub fn new(method: &str) -> (r: Self)
        requires
            spec_parse_aggregate_method(method.spec_bytes()) is Some,
        ensures
            Some(r) == spec_parse_aggregate_method(method.spec_bytes()),
    {
        Self::parse(method).unwrap()
    }
}

impl core::str::FromStr for AggregateMethod {
    type Err = ParseEnumError;

    fn from_str(s: &str) -> (r: Result<Self, Self::Err>)
        ensures
            r == match spec_parse_aggregate_method(s.spec_bytes()) {
                Some(v) => Ok(v),
                None => Err(ParseEnumError),
            },
    {
        match Self::parse(s) {
            Some(v) => Ok(v),
            None => Err(ParseEnumError),
        }
    }
}

} // verus!
