//! Turns a signal into the boolean level of a GPIO output pin: a scalar is
//! high when it is non-zero, a matrix when any element is, a byte string when
//! it is not empty. The pin itself is driven outside this library.
use crate::context::Context;
use crate::matrix::Matrix;
use crate::scalar::Scalar;
use vstd::prelude::*;

verus! {

/// Whether some element of `m` is non-zero.
pub open spec fn any_truthy<const NROWS: usize, const NCOLS: usize, T: Scalar>(m: Matrix<NROWS, NCOLS, T>) -> bool {
    exists|r: int, c: int| 0 <= r < NROWS && 0 <= c < NCOLS && (#[trigger] m.at(r, c)).value() != 0
}

/// Whether some element of `m` is non-zero.
pub fn matrix_to_bool<const NROWS: usize, const NCOLS: usize, T: Scalar>(m: &Matrix<NROWS, NCOLS, T>) -> (b: bool)
    ensures
        b == any_truthy(*m),
{
    let mut r: usize = 0;
    while r < NROWS
        invariant
            0 <= r <= NROWS,
            forall|i: int, j: int| 0 <= i < r && 0 <= j < NCOLS ==> (#[trigger] m.at(i, j)).value() == 0,
        decreases NROWS - r,
    {
        let mut c: usize = 0;
        while c < NCOLS
            invariant
                0 <= c <= NCOLS,
                0 <= r < NROWS,
                forall|i: int, j: int| 0 <= i < r && 0 <= j < NCOLS ==> (#[trigger] m.at(i, j)).value() == 0,
                forall|j: int| 0 <= j < c ==> (#[trigger] m.at(r as int, j)).value() == 0,
            decreases NCOLS - c,
        {
            if m.get(r, c).is_truthy() {
                return true;
            }
            c = c + 1;
        }
        r = r + 1;
    }
    false
}

/// Signals that can set the level of a pin.
pub trait ToBool {
    /// The level the signal sets.
    spec fn spec_to_bool(&self) -> bool;

    fn to_bool(&self) -> (b: bool)
        ensures
            b == self.spec_to_bool(),
    ;
}

impl ToBool for bool {
    open spec fn spec_to_bool(&self) -> bool {
        self.value() != 0
    }

    fn to_bool(&self) -> (b: bool) {
        self.is_truthy()
    }
}

impl ToBool for u8 {
    open spec fn spec_to_bool(&self) -> bool {
        self.value() != 0
    }

    fn to_bool(&self) -> (b: bool) {
        self.is_truthy()
    }
}

impl ToBool for i8 {
    open spec fn spec_to_bool(&self) -> bool {
        self.value() != 0
    }

    fn to_bool(&self) -> (b: bool) {
        self.is_truthy()
    }
}

impl ToBool for u16 {
    open spec fn spec_to_bool(&self) -> bool {
        self.value() != 0
    }

    fn to_bool(&self) -> (b: bool) {
        self.is_truthy()
    }
}

impl ToBool for i16 {
    open spec fn spec_to_bool(&self) -> bool {
        self.value() != 0
    }

    fn to_bool(&self) -> (b: bool) {
        self.is_truthy()
    }
}

impl ToBool for u32 {
    open spec fn spec_to_bool(&self) -> bool {
        self.value() != 0
    }

    fn to_bool(&self) -> (b: bool) {
        self.is_truthy()
    }
}

impl ToBool for i32 {
    open spec fn spec_to_bool(&self) -> bool {
        self.value() != 0
    }

    fn to_bool(&self) -> (b: bool) {
        self.is_truthy()
    }
}

impl<const NROWS: usize, const NCOLS: usize, T: Scalar> ToBool for Matrix<NROWS, NCOLS, T> {
    open spec fn spec_to_bool(&self) -> bool {
        any_truthy(*self)
    }

    fn to_bool(&self) -> (b: bool) {
        matrix_to_bool(self)
    }
}

impl ToBool for Vec<u8> {
    open spec fn spec_to_bool(&self) -> bool {
        self@.len() > 0
    }

    fn to_bool(&self) -> (b: bool) {
        self.len() > 0
    }
}

/// The GPIO output block takes no parameters.
pub struct Parameters {}

impl Parameters {
    pub fn new() -> (p: Self) {
        Parameters {}
    }
}

impl Default for Parameters {
    fn default() -> (p: Self) {
        Parameters::new()
    }
}

/// Converts its input to the level of a GPIO pin; `level` is the last one.
pub struct GpioOutputBlock {
    pub level: bool,
}

impl Default for GpioOutputBlock {
    fn default() -> (b: Self)
        ensures
            !b.level,
    {
        GpioOutputBlock { level: false }
    }
}

impl GpioOutputBlock {
    /// The level of the input: a non-zero scalar, a matrix with a non-zero
    /// element, or a non-empty byte string is high.
    pub fn process<T: ToBool, C: Context>(&mut self, _parameters: &Parameters, _context: &C, input: &T) -> (out: bool)
        ensures
            out == input.spec_to_bool(),
            final(self).level == out,
    {
        let out = input.to_bool();
        self.level = out;
        out
    }

    /// High when the byte string is not empty.
    pub fn process_bytes<C: Context>(&mut self, _parameters: &Parameters, _context: &C, input: &[u8]) -> (out: bool)
        ensures
            out == (input@.len() > 0),
            final(self).level == out,
    {
        let out = input.len() > 0;
        self.level = out;
        out
    }
}

} // verus!
