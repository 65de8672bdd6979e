//! Buffers the bytes to write to an I2C peripheral; the bus itself is driven
//! outside this library.
use crate::context::Context;
use crate::text::copy_range;
use vstd::prelude::*;

verus! {

/// Parameters of the I2C output block.
pub struct Parameters {
    /// 8-bit address to write to.
    pub address: u8,
    /// 8-bit command to send, typically a register address.
    pub command: u8,
}

impl Parameters {
    pub fn new(address: u8, command: u8) -> (p: Self)
        ensures
            p.address == address,
            p.command == command,
    {
        Parameters { address, command }
    }
}

/// Holds the bytes of the last write.
pub struct I2cOutputBlock {
    pub buffer: Vec<u8>,
}

impl Default for I2cOutputBlock {
    fn default() -> (b: Self)
        ensures
            b.buffer@.len() == 0,
    {
        I2cOutputBlock { buffer: Vec::new() }
    }
}

impl I2cOutputBlock {
    /// Copies the input into the buffer and returns it.
    pub fn process<C: Context>(&mut self, _parameters: &Parameters, _context: &C, input: &[u8]) -> (out: &[u8])
        ensures
            out@ == input@,
            final(self).buffer@ == input@,
    {
        self.buffer = copy_range(input, 0, input.len());
        assert(input@.subrange(0, input@.len() as int) =~= input@);
        self.buffer.as_slice()
    }
}

} // verus!
