//! Generates the same fixed bytes on every tick.
use crate::context::Context;
use vstd::prelude::*;

verus! {

/// The bytes the block generates.
pub struct Parameters<const CHARS: usize> {
    pub value: [u8; CHARS],
}

impl<const CHARS: usize> Parameters<CHARS> {
    pub fn new(input: [u8; CHARS]) -> (p: Self)
        ensures
            p.value == input,
    {
        Parameters { value: input }
    }
}

/// Generates the bytes of its parameters.
pub struct BytesLiteralBlock<const CHARS: usize> {
    pub buffer: [u8; CHARS],
}

impl<const CHARS: usize> Default for BytesLiteralBlock<CHARS> {
    fn default() -> (b: Self)
        ensures
            forall|i: int| 0 <= i < CHARS ==> #[trigger] b.buffer@[i] == 0,
    {
        BytesLiteralBlock { buffer: [0u8; CHARS] }
    }
}

impl<const CHARS: usize> BytesLiteralBlock<CHARS> {
    /// The bytes of the parameters.
    pub fn generate<C: Context>(&mut self, parameters: &Parameters<CHARS>, _context: &C) -> (out: &[u8])
        ensures
            out@ == parameters.value@,
            final(self).buffer == parameters.value,
    {
        self.buffer = parameters.value;
        self.buffer.as_slice()
    }
}

} // verus!
