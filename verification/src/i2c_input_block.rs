//! Buffers the bytes read from an I2C peripheral. A read of the expected
//! length replaces the buffer and counts as an update; any other read leaves
//! the buffer as it was. The output is valid while the last update is no
//! older than the stale age. The bus itself is driven outside this library.
use crate::context::Context;
use crate::text::copy_range;
use vstd::prelude::*;

verus! {

/// Parameters of the I2C input block. Times are in nanoseconds.
pub struct Parameters {
    /// 8-bit address to read from.
    pub address: u8,
    /// 8-bit command to send, typically a register address.
    pub command: u8,
    /// Number of bytes a good read returns.
    pub read_bytes: usize,
    /// Age after which the last update no longer counts as valid.
    pub stale_age: u128,
}

impl Parameters {
    pub fn new(address: u8, command: u8, read_bytes: usize, stale_age: u128) -> (p: Self)
        ensures
            p.address == address,
            p.command == command,
            p.read_bytes == read_bytes,
            p.stale_age == stale_age,
    {
        Parameters { address, command, read_bytes, stale_age }
    }
}

/// Whether an update at `last_update` still counts at time `now`.
pub open spec fn fresh(last_update: Option<u128>, stale_age: u128, now: u128) -> bool {
    match last_update {
        Some(t) => now - t <= stale_age,
        None => false,
    }
}

/// Holds the last good read and the time it arrived.
pub struct I2cInputBlock {
    pub buffer: Vec<u8>,
    pub last_update: Option<u128>,
    pub stale_age: u128,
}

impl Default for I2cInputBlock {
    fn default() -> (b: Self)
        ensures
            b.buffer@.len() == 0,
            b.last_update.is_none(),
            b.stale_age == 0,
    {
        I2cInputBlock { buffer: Vec::new(), last_update: None, stale_age: 0 }
    }
}

impl I2cInputBlock {
    /// Whether the last good read is no older than the stale age at `now`.
    pub fn is_valid(&self, now: u128) -> (b: bool)
        ensures
            b == fresh(self.last_update, self.stale_age, now),
    {
        match self.last_update {
            Some(t) => now < t || now - t <= self.stale_age,
            None => false,
        }
    }

    /// Takes a read: one of `read_bytes` bytes replaces the buffer and
    /// records the time; the buffer is returned either way. A new stale age
    /// starts the staleness tracking afresh, forgetting the last good read's
    /// time.
    pub fn process<C: Context>(&mut self, parameters: &Parameters, context: &C, input: &[u8]) -> (out: &[u8])
        ensures
            out@ == final(self).buffer@,
            final(self).stale_age == parameters.stale_age,
            input@.len() == parameters.read_bytes ==> final(self).buffer@ == input@
                && final(self).last_update == Some(context.spec_time()),
            input@.len() != parameters.read_bytes ==> final(self).buffer@ == old(self).buffer@
                && final(self).last_update == (if old(self).stale_age == parameters.stale_age {
                    old(self).last_update
                } else {
                    None
                }),
    {
        if self.stale_age != parameters.stale_age {
            self.stale_age = parameters.stale_age;
            self.last_update = None;
        }
        if input.len() == parameters.read_bytes {
            self.buffer = copy_range(input, 0, input.len());
            assert(input@.subrange(0, input@.len() as int) =~= input@);
            self.last_update = Some(context.time());
        }
        self.buffer.as_slice()
    }
}

} // verus!
