//! The execution context handed to blocks, and the stub context and runtime
//! used to drive blocks in tests. All times are in nanoseconds.
use vstd::prelude::*;

verus! {

/// The execution context of a block: times are in nanoseconds.
pub trait Context {
    /// Time elapsed since the start of the program / simulation.
    spec fn spec_time(&self) -> u128;

    /// Actual elapsed time since the last tick; `None` on the first tick.
    spec fn spec_timestep(&self) -> Option<u128>;

    /// The goal timestep of the model.
    spec fn spec_fundamental_timestep(&self) -> u128;

    /// Time elapsed since the start of the program / simulation.
    fn time(&self) -> (t: u128)
        ensures
            t == self.spec_time(),
    ;

    /// Actual elapsed time since the last tick; `None` on the first tick.
    fn timestep(&self) -> (t: Option<u128>)
        ensures
            t == self.spec_timestep(),
    ;

    /// The goal timestep of the model.
    fn fundamental_timestep(&self) -> (t: u128)
        ensures
            t == self.spec_fundamental_timestep(),
    ;
}

/// A context for driving blocks in unit tests.
#[derive(Debug, Clone, Copy, PartialEq, Eq)]
pub struct StubContext {
    pub time: u128,
    pub timestep: Option<u128>,
    pub fundamental_timestep: u128,
}

impl StubContext {
    pub fn new(time: u128, timestep: Option<u128>, fundamental_timestep: u128) -> (c: Self)
        ensures
            c.time == time,
            c.timestep == timestep,
            c.fundamental_timestep == fundamental_timestep,
    {
        StubContext { time, timestep, fundamental_timestep }
    }
}

impl Default for StubContext {
    /// Time zero, no timestep yet, and a fundamental timestep of 100 ms.
    fn default() -> (c: Self)
        ensures
            c.time == 0,
            c.timestep.is_none(),
            c.fundamental_timestep == 100_000_000,
    {
        Self::new(0, None, 100_000_000)
    }
}

impl Context for StubContext {
    open spec fn spec_time(&self) -> u128 {
        self.time
    }

    open spec fn spec_timestep(&self) -> Option<u128> {
        self.timestep
    }

    open spec fn spec_fundamental_timestep(&self) -> u128 {
        self.fundamental_timestep
    }

    fn time(&self) -> (t: u128) {
        self.time
    }

    fn timestep(&self) -> (t: Option<u128>) {
        self.timestep
    }

    fn fundamental_timestep(&self) -> (t: u128) {
        self.fundamental_timestep
    }
}

/// Wraps a [`StubContext`] and simulates the passage of time in unit tests.
#[derive(Debug, Clone, Copy, PartialEq, Eq)]
pub struct StubRuntime {
    pub context: StubContext,
}

impl StubRuntime {
    pub fn new(context: StubContext) -> (r: Self)
        ensures
            r.context == context,
    {
        StubRuntime { context }
    }

    /// Advances the time by one fundamental timestep and records that step as
    /// the last timestep.
    pub fn tick(&mut self)
        requires
            old(self).context.time + old(self).context.fundamental_timestep <= u128::MAX,
        ensures
            final(self).context.time == old(self).context.time + old(self).context.fundamental_timestep,
            final(self).context.timestep == Some(old(self).context.fundamental_timestep),
            final(self).context.fundamental_timestep == old(self).context.fundamental_timestep,
    {
        self.context.time = self.context.time + self.context.fundamental_timestep;
        self.context.timestep = Some(self.context.fundamental_timestep);
    }

    /// A copy of the current context.
    pub fn context(&self) -> (c: StubContext)
        ensures
            c == self.context,
    {
        self.context
    }

    /// Sets the current time, leaving the timesteps as they are.
    pub fn set_time(&mut self, time: u128)
        ensures
            final(self).context.time == time,
            final(self).context.timestep == old(self).context.timestep,
            final(self).context.fundamental_timestep == old(self).context.fundamental_timestep,
    {
        self.context.time = time;
    }
}

impl Default for StubRuntime {
    fn default() -> (r: Self)
        ensures
            r.context.time == 0,
            r.context.timestep.is_none(),
            r.context.fundamental_timestep == 100_000_000,
    {
        StubRuntime { context: StubContext::default() }
    }
}

} // verus!
