//! The filter kinds of the frequency filter block. The filter itself works on
//! floating-point signals and lives with the application code.
use crate::text::{bytes_equal, ParseEnumError};
use vstd::prelude::*;
use vstd::string::StringSliceAdditionalSpecFns;

verus! {

/// The kind of frequency filter: high pass or low pass.
#[derive(Clone, Copy, Debug, PartialEq, Eq, Structural)]
pub enum FrequencyFilterEnum {
    HighPass,
    LowPass,
}

/// The variant named `s` (`"HighPass"`, `"LowPass"`).
pub open spec fn spec_parse_frequency_filter(s: Seq<u8>) -> Option<FrequencyFilterEnum> {
    if s == "HighPass".spec_bytes() {
        Some(FrequencyFilterEnum::HighPass)
    } else if s == "LowPass".spec_bytes() {
        Some(FrequencyFilterEnum::LowPass)
    } else {
        None
    }
}

impl FrequencyFilterEnum {
    /// The variant named `s` (`"HighPass"`, `"LowPass"`); `None` for any other text.
    pub fn parse(s: &str) -> (r: Option<Self>)
        ensures
            r == spec_parse_frequency_filter(s.spec_bytes()),
    {
        let b = s.as_bytes();
        if bytes_equal(b, "HighPass".as_bytes()) {
            Some(FrequencyFilterEnum::HighPass)
        } else if bytes_equal(b, "LowPass".as_bytes()) {
            Some(FrequencyFilterEnum::LowPass)
        } else {
            None
        }
    }
}

impl core::str::FromStr for FrequencyFilterEnum {
    type Err = ParseEnumError;

    fn from_str(s: &str) -> (r: Result<Self, Self::Err>)
        ensures
            r == match spec_parse_frequency_filter(s.spec_bytes()) {
                Some(v) => Ok(v),
                None => Err(ParseEnumError),
            },
    {
        match Self::parse(s) {
            Some(v) => Ok(v),
            None => Err(ParseEnumError),
        }
    }
}

} // verus!
