//! Detects changes of the input: the output is true when the input changed
//! since the previous step in the way the mode asks (rising, falling, any).
//! A block built by `Default` has no value to compare with on its first
//! step and emits false; a block built from its parameters ([`HasIc`])
//! compares its first input with the initial condition.
use crate::context::Context;
use crate::matrix::Matrix;
use crate::scalar::Scalar;
use crate::text::{bytes_equal, ParseEnumError};
use vstd::prelude::*;
use vstd::string::StringSliceAdditionalSpecFns;

verus! {

/// Which changes of the input count.
#[derive(Clone, Copy, Debug, PartialEq, Eq, Structural)]
pub enum ChangeMode {
    Any,
    Rising,
    Falling,
}

/// The variant named `s` (`"Any"`, `"Rising"`, `"Falling"`).
pub open spec fn spec_parse_change_mode(s: Seq<u8>) -> Option<ChangeMode> {
    if s == "Any".spec_bytes() {
        Some(ChangeMode::Any)
    } else if s == "Rising".spec_bytes() {
        Some(ChangeMode::Rising)
    } else if s == "Falling".spec_bytes() {
        Some(ChangeMode::Falling)
    } else {
        None
    }
}

impl ChangeMode {
    /// The variant named `s` (`"Any"`, `"Rising"`, `"Falling"`); `None` for any other text.
    pub fn parse(s: &str) -> (r: Option<Self>)
        ensures
            r == spec_parse_change_mode(s.spec_bytes()),
    {
        let b = s.as_bytes();
        if bytes_equal(b, "Any".as_bytes()) {
            Some(ChangeMode::Any)
        } else if bytes_equal(b, "Rising".as_bytes()) {
            Some(ChangeMode::Rising)
        } else if bytes_equal(b, "Falling".as_bytes()) {
            Some(ChangeMode::Falling)
        } else {
            None
        }
    }
}

impl core::str::FromStr for ChangeMode {
    type Err = ParseEnumError;

    fn from_str(s: &str) -> (r: Result<Self, Self::Err>)
        ensures
            r == match spec_parse_change_mode(s.spec_bytes()) {
                Some(v) => Ok(v),
                None => Err(ParseEnumError),
            },
    {
        match Self::parse(s) {
            Some(v) => Ok(v),
            None => Err(ParseEnumError),
        }
    }
}

/// Whether going from `previous` to `current` is a change of kind `mode`.
pub open spec fn changed(mode: ChangeMode, current: int, previous: int) -> bool {
    match mode {
        ChangeMode::Any => current != previous,
        ChangeMode::Rising => current > previous,
        ChangeMode::Falling => current < previous,
    }
}

/// Rising reports exactly the steps on which the value grew, Falling exactly
/// those on which it shrank (a rise read backwards), and Any exactly those on
/// which it changed, which are the steps that rise or fall.
pub proof fn lemma_change_modes(current: int, previous: int)
    ensures
        changed(ChangeMode::Rising, current, previous) <==> previous < current,
        changed(ChangeMode::Falling, current, previous) == changed(ChangeMode::Rising, previous, current),
        changed(ChangeMode::Any, current, previous) <==> current != previous,
        changed(ChangeMode::Any, current, previous) == (changed(ChangeMode::Rising, current, previous)
            || changed(ChangeMode::Falling, current, previous)),
        !(changed(ChangeMode::Rising, current, previous) && changed(ChangeMode::Falling, current, previous)),
{
}

/// Whether going from `previous` to `current` is a change of kind `mode`.
pub fn change_detect<T: Scalar>(current: T, previous: T, mode: ChangeMode) -> (r: bool)
    ensures
        r == changed(mode, current.value(), previous.value()),
{
    match mode {
        ChangeMode::Any => !current.eq_to(previous),
        ChangeMode::Rising => previous.lt(current),
        ChangeMode::Falling => current.lt(previous),
    }
}

/// The initial condition (the input assumed before the first step) and the
/// kind of change to detect.
pub struct Parameters<T> {
    pub ic: T,
    pub change_mode: ChangeMode,
}

impl<T> Parameters<T> {
    /// `change_mode` must name a [`ChangeMode`].
    pub fn new(ic: T, change_mode: &str) -> (p: Self)
        requires
            spec_parse_change_mode(change_mode.spec_bytes()) is Some,
        ensures
            p.ic == ic,
            Some(p.change_mode) == spec_parse_change_mode(change_mode.spec_bytes()),
    {
        Parameters { ic, change_mode: ChangeMode::parse(change_mode).unwrap() }
    }
}

/// A block that can be built from its parameters, holding its initial condition.
pub trait HasIc: Sized {
    type Parameters;

    fn new(parameters: &Self::Parameters) -> Self;
}

/// Detects changes of a scalar input.
pub struct ChangeDetectionBlock<T: Scalar> {
    pub buffer: Option<bool>,
    pub last_input: Option<T>,
}

impl<T: Scalar> Default for ChangeDetectionBlock<T> {
    fn default() -> (b: Self)
        ensures
            b.buffer is None,
            b.last_input is None,
    {
        ChangeDetectionBlock { buffer: None, last_input: None }
    }
}

impl<T: Scalar> HasIc for ChangeDetectionBlock<T> {
    type Parameters = Parameters<T>;

    fn new(parameters: &Parameters<T>) -> (b: Self)
        ensures
            b.last_input == Some(parameters.ic),
            b.buffer == Some(false),
    {
        ChangeDetectionBlock { buffer: Some(false), last_input: Some(parameters.ic) }
    }
}

impl<T: Scalar> ChangeDetectionBlock<T> {
    /// Whether the input changed since the previous step (false when there is
    /// no previous value); remembers the input.
    pub fn process<C: Context>(&mut self, parameters: &Parameters<T>, _context: &C, input: T) -> (out: bool)
        ensures
            out == match old(self).last_input {
                Some(p) => changed(parameters.change_mode, input.value(), p.value()),
                None => false,
            },
            final(self).last_input == Some(input),
            final(self).buffer == Some(out),
    {
        let res = match self.last_input {
            Some(previous) => change_detect(input, previous, parameters.change_mode),
            None => false,
        };
        self.last_input = Some(input);
        self.buffer = Some(res);
        res
    }
}

/// Detects changes of each element of a matrix input.
pub struct MatrixChangeDetectionBlock<const NROWS: usize, const NCOLS: usize, T: Scalar> {
    pub buffer: Option<Matrix<NROWS, NCOLS, bool>>,
    pub last_input: Option<Matrix<NROWS, NCOLS, T>>,
}

impl<const NROWS: usize, const NCOLS: usize, T: Scalar> Default for MatrixChangeDetectionBlock<NROWS, NCOLS, T> {
    fn default() -> (b: Self)
        ensures
            b.buffer is None,
            b.last_input is None,
    {
        MatrixChangeDetectionBlock { buffer: None, last_input: None }
    }
}

impl<const NROWS: usize, const NCOLS: usize, T: Scalar> HasIc for MatrixChangeDetectionBlock<NROWS, NCOLS, T> {
    type Parameters = Parameters<Matrix<NROWS, NCOLS, T>>;

    fn new(parameters: &Parameters<Matrix<NROWS, NCOLS, T>>) -> (b: Self)
        ensures
            b.last_input == Some(parameters.ic),
            b.buffer matches Some(m) && forall|r: int, c: int| 0 <= r < NROWS && 0 <= c < NCOLS ==> !#[trigger] m.at(r, c),
    {
        MatrixChangeDetectionBlock { buffer: Some(Matrix::filled(false)), last_input: Some(parameters.ic) }
    }
}

impl<const NROWS: usize, const NCOLS: usize, T: Scalar> MatrixChangeDetectionBlock<NROWS, NCOLS, T> {
    /// Whether each element changed since the previous step (all false when
    /// there is no previous value); remembers the input.
    pub fn process<C: Context>(
        &mut self,
        parameters: &Parameters<Matrix<NROWS, NCOLS, T>>,
        _context: &C,
        input: &Matrix<NROWS, NCOLS, T>,
    ) -> (out: Matrix<NROWS, NCOLS, bool>)
        ensures
            forall|r: int, c: int| 0 <= r < NROWS && 0 <= c < NCOLS ==> #[trigger] out.at(r, c) == match old(self).last_input {
                Some(p) => changed(parameters.change_mode, input.at(r, c).value(), p.at(r, c).value()),
                None => false,
            },
            final(self).last_input == Some(*input),
            final(self).buffer == Some(out),
    {
        let mode = parameters.change_mode;
        let prev = match self.last_input {
            Some(v) => v,
            None => {
                let out = Matrix::<NROWS, NCOLS, bool>::filled(false);
                self.last_input = Some(*input);
                self.buffer = Some(out);
                return out;
            },
        };
        self.last_input = Some(*input);
        let mut out = Matrix::<NROWS, NCOLS, bool>::zeroed();
        let mut c: usize = 0;
        while c < NCOLS
            invariant
                0 <= c <= NCOLS,
                forall|i: int, j: int| 0 <= i < NROWS && 0 <= j < c ==> (#[trigger] out.at(i, j)) == changed(mode, input.at(i, j).value(), prev.at(i, j).value()),
            decreases NCOLS - c,
        {
            let mut r: usize = 0;
            while r < NROWS
                invariant
                    0 <= r <= NROWS,
                    0 <= c < NCOLS,
                    forall|i: int, j: int| 0 <= i < NROWS && 0 <= j < c ==> (#[trigger] out.at(i, j)) == changed(mode, input.at(i, j).value(), prev.at(i, j).value()),
                    forall|i: int| 0 <= i < r ==> (#[trigger] out.at(i, c as int)) == changed(mode, input.at(i, (c as int)).value(), prev.at(i, (c as int)).value()),
                decreases NROWS - r,
            {
                let v = change_detect(input.get(r, c), prev.get(r, c), mode);
                out.set(r, c, v);
                r = r + 1;
            }
            c = c + 1;
        }
        self.buffer = Some(out);
        out
    }
}

} // verus!
