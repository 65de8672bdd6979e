//! The pieces of the generated CRAS application that are plain logic: its
//! build stamp, its state machine's states and its I/O manager, which has no
//! inputs to flush.
use vstd::prelude::*;

verus! {

/// The application's name, version and build time.
pub fn compile_info() -> (s: &'static str)
    ensures
        s@ == "cras_h_67e3ea9a6a4093c50166013a version : compiled 04/03/2025 - 05:15:56"@,
{
    "cras_h_67e3ea9a6a4093c50166013a version : compiled 04/03/2025 - 05:15:56"
}

/// The states of the application's state machine.
#[derive(Debug, Clone, Copy, PartialEq, Eq, Structural)]
pub enum State {
    Main6013bState,
}

/// The application's I/O manager; the application reads no inputs.
pub struct IoManager {}

impl IoManager {
    /// Creating the manager cannot fail.
    pub fn new() -> (r: Result<Self, ()>)
        ensures
            r is Ok,
    {
        Ok(IoManager {})
    }

    /// There are no inputs, so there is nothing to flush.
    pub fn flush_inputs(&mut self)
        ensures
            *final(self) == *old(self),
    {
    }
}

} // verus!
