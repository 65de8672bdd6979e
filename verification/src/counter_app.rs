//! The pieces of the generated counter application that are plain logic: its
//! build stamp, its state machine's states and its I/O manager, which has no
//! inputs to flush.
use vstd::prelude::*;

verus! {

/// The application's name, version and build time.
pub fn compile_info() -> (s: &'static str)
    ensures
        s@ == "counter_68059cc7b7d81834df67e279 version : compiled 04/21/2025 - 05:49:08"@,
{
    "counter_68059cc7b7d81834df67e279 version : compiled 04/21/2025 - 05:49:08"
}

/// The states of the application's state machine.
#[derive(Debug, Clone, Copy, PartialEq, Eq, Structural)]
pub enum State {
    Main7e27aState,
}

/// The application's I/O manager; the application reads no inputs.
pub struct IoManager {}

impl IoManager {
    /// There are no inputs, so there is nothing to flush.
    pub fn flush_inputs(&mut self)
        ensures
            *final(self) == *old(self),
    {
    }
}

} // verus!
