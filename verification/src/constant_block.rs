//! Generates the same value, scalar or matrix, on every tick.
use crate::context::Context;
use vstd::prelude::*;

verus! {

/// The value the constant block generates.
pub struct Parameters<T> {
    pub constant: T,
}

impl<T> Parameters<T> {
    pub fn new(constant: T) -> (p: Self)
        ensures
            p.constant == constant,
    {
        Parameters { constant }
    }
}

/// Generates the constant of its parameters.
pub struct ConstantBlock<T: Copy> {
    pub buffer: Option<T>,
}

impl<T: Copy> Default for ConstantBlock<T> {
    fn default() -> (b: Self)
        ensures
            b.buffer is None,
    {
        ConstantBlock { buffer: None }
    }
}

impl<T: Copy> ConstantBlock<T> {
    /// The constant of the parameters.
    pub fn generate<C: Context>(&mut self, parameters: &Parameters<T>, _context: &C) -> (out: T)
        ensures
            out == parameters.constant,
            final(self).buffer == Some(out),
    {
        let out = parameters.constant;
        self.buffer = Some(out);
        out
    }
}

} // verus!
