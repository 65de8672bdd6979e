//! The integration methods of the integral block. The integrator itself works
//! on floating-point signals and lives with the application code.
use crate::text::{bytes_equal, ParseEnumError};
use vstd::prelude::*;
use vstd::string::StringSliceAdditionalSpecFns;

verus! {

/// The integration method. Rectangle uses the sample at the current time
/// step times the step duration; Trapezoidal uses the mean of the current and
/// previous samples times the step duration.
#[derive(Clone, Copy, Debug, PartialEq, Eq, Structural)]
pub enum IntgeralMethod {
    Rectangle,
    Trapezoidal,
}

/// The variant named `s` (`"Rectangle"`, `"Trapezoidal"`).
pub open spec fn spec_parse_integral_method(s: Seq<u8>) -> Option<IntgeralMethod> {
    if s == "Rectangle".spec_bytes() {
        Some(IntgeralMethod::Rectangle)
    } else if s == "Trapezoidal".spec_bytes() {
        Some(IntgeralMethod::Trapezoidal)
    } else {
        None
    }
}

impl IntgeralMethod {
    /// The variant named `s` (`"Rectangle"`, `"Trapezoidal"`); `None` for any other text.
    pub fn parse(s: &str) -> (r: Option<Self>)
        ensures
            r == spec_parse_integral_method(s.spec_bytes()),
    {
        let b = s.as_bytes();
        if bytes_equal(b, "Rectangle".as_bytes()) {
            Some(IntgeralMethod::Rectangle)
        } else if bytes_equal(b, "Trapezoidal".as_bytes()) {
            Some(IntgeralMethod::Trapezoidal)
        } else {
            None
        }
    }
}

impl core::str::FromStr for IntgeralMethod {
    type Err = ParseEnumError;

    fn from_str(s: &str) -> (r: Result<Self, Self::Err>)
        ensures
            r == match spec_parse_integral_method(s.spec_bytes()) {
                Some(v) => Ok(v),
                None => Err(ParseEnumError),
            },
    {
        match Self::parse(s) {
            Some(v) => Ok(v),
            None => Err(ParseEnumError),
        }
    }
}

} // verus!
