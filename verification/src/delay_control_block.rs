//! Debounces or throttles a signal. Inputs are read by truthiness (non-zero);
//! the output is a boolean. All times are in nanoseconds.
//!  - Debounce: wait until the input stops being true for the delay before emitting true.
//!  - Throttle: emit true on the first true input, then wait the delay before
//!    passing a true input through again.
use crate::context::Context;
use crate::matrix::Matrix;
use crate::scalar::Scalar;
use crate::text::{bytes_equal, ParseEnumError};
use vstd::prelude::*;
use vstd::string::StringSliceAdditionalSpecFns;

verus! {

/// How the block delays its input.
#[derive(Clone, Copy, Debug, PartialEq, Eq, Structural)]
pub enum DelayControlMethod {
    Debounce,
    Throttle,
}

/// The variant named `s` (`"Debounce"`, `"Throttle"`).
pub open spec fn spec_parse_delay_control_method(s: Seq<u8>) -> Option<DelayControlMethod> {
    if s == "Debounce".spec_bytes() {
        Some(DelayControlMethod::Debounce)
    } else if s == "Throttle".spec_bytes() {
        Some(DelayControlMethod::Throttle)
    } else {
        None
    }
}

impl DelayControlMethod {
    /// The variant named `s` (`"Debounce"`, `"Throttle"`); `None` for any other text.
    pub fn parse(s: &str) -> (r: Option<Self>)
        ensures
            r == spec_parse_delay_control_method(s.spec_bytes()),
    {
        let b = s.as_bytes();
        if bytes_equal(b, "Debounce".as_bytes()) {
            Some(DelayControlMethod::Debounce)
        } else if bytes_equal(b, "Throttle".as_bytes()) {
            Some(DelayControlMethod::Throttle)
        } else {
            None
        }
    }
}

impl core::str::FromStr for DelayControlMethod {
    type Err = ParseEnumError;

    fn from_str(s: &str) -> (r: Result<Self, Self::Err>)
        ensures
            r == match spec_parse_delay_control_method(s.spec_bytes()) {
                Some(v) => Ok(v),
                None => Err(ParseEnumError),
            },
    {
        match Self::parse(s) {
            Some(v) => Ok(v),
            None => Err(ParseEnumError),
        }
    }
}

/// The state of one delayed signal: the time it was last triggered, if any.
/// Time never runs backwards past it.
pub open spec fn state_ok(state: Option<u128>, now: u128) -> bool {
    state matches Some(d) ==> d <= now
}

/// Debounce: a true input (re)starts the wait and gives `false`; a false input
/// gives `true` once the wait has lasted `delay`, and ends the wait.
/// Returns the output and the next state.
pub open spec fn spec_debounce(input: bool, state: Option<u128>, delay: u128, now: u128) -> (bool, Option<u128>) {
    if input {
        (false, Some(now))
    } else {
        match state {
            Some(d) => if now - d >= delay {
                (true, None)
            } else {
                (false, state)
            },
            None => (false, None),
        }
    }
}

/// Throttle: a wait that has lasted `delay` ends; then a true input outside a
/// wait gives `true` and starts a wait. Returns the output and the next state.
pub open spec fn spec_throttle(input: bool, state: Option<u128>, delay: u128, now: u128) -> (bool, Option<u128>) {
    let state = match state {
        Some(d) => if now - d >= delay {
            None
        } else {
            state
        },
        None => None,
    };
    if input && state is None {
        (true, Some(now))
    } else {
        (false, state)
    }
}

/// Debounces one signal: updates the state and returns the output.
pub fn debounce(input: bool, state: &mut Option<u128>, delay: u128, curr_time: u128) -> (out: bool)
    requires
        state_ok(*old(state), curr_time),
    ensures
        (out, *final(state)) == spec_debounce(input, *old(state), delay, curr_time),
        state_ok(*final(state), curr_time),
{
    let mut output = false;
    if input {
        *state = Some(curr_time);
    } else {
        match *state {
            Some(d) => {
                if curr_time - d >= delay {
                    output = true;
                    *state = None;
                }
            },
            None => {},
        }
    }
    output
}

/// Throttles one signal: updates the state and returns the output.
pub fn throttle(input: bool, state: &mut Option<u128>, delay: u128, curr_time: u128) -> (out: bool)
    requires
        state_ok(*old(state), curr_time),
    ensures
        (out, *final(state)) == spec_throttle(input, *old(state), delay, curr_time),
        state_ok(*final(state), curr_time),
{
    let mut output = false;
    match *state {
        Some(d) => {
            if curr_time - d >= delay {
                *state = None;
            }
        },
        None => {},
    }
    if input && state.is_none() {
        output = true;
        *state = Some(curr_time);
    }
    output
}

/// The output and next state of one signal under `method`.
pub open spec fn spec_delay(method: DelayControlMethod, input: bool, state: Option<u128>, delay: u128, now: u128) -> (bool, Option<u128>) {
    match method {
        DelayControlMethod::Debounce => spec_debounce(input, state, delay, now),
        DelayControlMethod::Throttle => spec_throttle(input, state, delay, now),
    }
}

/// Throttle lets true outputs through at most once per delay: a true output
/// comes at least `delay` after the previous true output still recorded in
/// the state, and starts a new wait at the current time.
pub proof fn lemma_throttle_spacing(input: bool, last: u128, delay: u128, now: u128)
    requires
        last <= now,
        spec_throttle(input, Some(last), delay, now).0,
    ensures
        now - last >= delay,
        spec_throttle(input, Some(last), delay, now).1 == Some(now),
{
}

/// Debounce emits `true` only for a false input at least `delay` after the
/// last true input, and then waits for a new true input: the next output for
/// a false input is `false`.
pub proof fn lemma_debounce_fires_once(state: Option<u128>, delay: u128, now: u128, later: u128)
    requires
        state_ok(state, now),
        now <= later,
        spec_debounce(false, state, delay, now).0,
    ensures
        state matches Some(d) && now - d >= delay,
        !spec_debounce(false, spec_debounce(false, state, delay, now).1, delay, later).0,
{
}

/// Delay in nanoseconds and the delay method.
#[derive(Clone, Copy, Debug)]
pub struct Parameters {
    pub delay: u128,
    pub method: DelayControlMethod,
}

impl Parameters {
    /// `delay` is in nanoseconds; `method` names a [`DelayControlMethod`].
    pub fn new(delay: u128, method: &str) -> (p: Self)
        requires
            spec_parse_delay_control_method(method.spec_bytes()) is Some,
        ensures
            p.delay == delay,
            Some(p.method) == spec_parse_delay_control_method(method.spec_bytes()),
    {
        Parameters { delay, method: DelayControlMethod::parse(method).unwrap() }
    }
}

/// Debounces or throttles a scalar signal.
pub struct DelayControlBlock<S: Scalar> {
    pub state: Option<u128>,
    pub buffer: Option<bool>,
    pub phantom: core::marker::PhantomData<S>,
}

impl<S: Scalar> Default for DelayControlBlock<S> {
    fn default() -> (b: Self)
        ensures
            b.state is None,
            b.buffer is None,
    {
        DelayControlBlock { state: None, buffer: None, phantom: core::marker::PhantomData }
    }
}

impl<S: Scalar> DelayControlBlock<S> {
    /// Feeds the input (true when non-zero) to the delay and returns its output.
    pub fn process<C: Context>(&mut self, parameters: &Parameters, context: &C, input: S) -> (out: bool)
        requires
            state_ok(old(self).state, context.spec_time()),
        ensures
            (out, final(self).state) == spec_delay(
                parameters.method,
                input.value() != 0,
                old(self).state,
                parameters.delay,
                context.spec_time(),
            ),
            final(self).buffer == Some(out),
            state_ok(final(self).state, context.spec_time()),
    {
        let is_true = input.is_truthy();
        let now = context.time();
        let out = match parameters.method {
            DelayControlMethod::Debounce => debounce(is_true, &mut self.state, parameters.delay, now),
            DelayControlMethod::Throttle => throttle(is_true, &mut self.state, parameters.delay, now),
        };
        self.buffer = Some(out);
        out
    }
}

/// Debounces or throttles each element of a matrix signal independently.
pub struct DelayControlMatrixBlock<const NROWS: usize, const NCOLS: usize, S: Scalar> {
    pub state: [[Option<u128>; NROWS]; NCOLS],
    pub buffer: Matrix<NROWS, NCOLS, bool>,
    pub phantom: core::marker::PhantomData<S>,
}

impl<const NROWS: usize, const NCOLS: usize, S: Scalar> DelayControlMatrixBlock<NROWS, NCOLS, S> {
    /// The state of element (`r`, `c`).
    pub open spec fn state_at(&self, r: int, c: int) -> Option<u128> {
        self.state@[c]@[r]
    }

    /// Every element's state is consistent with time `now`.
    pub open spec fn states_ok(&self, now: u128) -> bool {
        forall|r: int, c: int| 0 <= r < NROWS && 0 <= c < NCOLS ==> state_ok(#[trigger] self.state_at(r, c), now)
    }

    /// No element has been triggered yet.
    pub fn new() -> (b: Self)
        ensures
            forall|r: int, c: int| 0 <= r < NROWS && 0 <= c < NCOLS ==> (#[trigger] b.state_at(r, c)) is None,
    {
        let col: [Option<u128>; NROWS] = [None; NROWS];
        let b = DelayControlMatrixBlock { state: [col; NCOLS], buffer: Matrix::zeroed(), phantom: core::marker::PhantomData };
        assert forall|r: int, c: int| 0 <= r < NROWS && 0 <= c < NCOLS implies (#[trigger] b.state_at(r, c)) is None by {
            assert(b.state@[c] == col);
        }
        b
    }

    /// Feeds each element (true when non-zero) to its own delay; returns the outputs.
    pub fn process<C: Context>(&mut self, parameters: &Parameters, context: &C, input: &Matrix<NROWS, NCOLS, S>) -> (out: &Matrix<NROWS, NCOLS, bool>)
        requires
            old(self).states_ok(context.spec_time()),
        ensures
            *out == final(self).buffer,
            final(self).states_ok(context.spec_time()),
            forall|r: int, c: int| 0 <= r < NROWS && 0 <= c < NCOLS ==> (#[trigger] out.at(r, c), final(self).state_at(r, c))
                == spec_delay(parameters.method, input.at(r, c).value() != 0, old(self).state_at(r, c), parameters.delay, context.spec_time()),
    {
        let now = context.time();
        let ghost old_self = *self;
        let mut c: usize = 0;
        while c < NCOLS
            invariant
                0 <= c <= NCOLS,
                old_self.states_ok(now),
                now == context.spec_time(),
                forall|r: int, j: int| 0 <= r < NROWS && c <= j < NCOLS ==> #[trigger] self.state_at(r, j) == old_self.state_at(r, j),
                forall|r: int, j: int| 0 <= r < NROWS && 0 <= j < c ==> state_ok(#[trigger] self.state_at(r, j), now),
                forall|r: int, j: int| 0 <= r < NROWS && 0 <= j < c ==> (#[trigger] self.buffer.at(r, j), self.state_at(r, j))
                    == spec_delay(parameters.method, input.at(r, j).value() != 0, old_self.state_at(r, j), parameters.delay, now),
            decreases NCOLS - c,
        {
            let ghost start_self = *self;
            let mut col = self.state[c];
            let ghost col0 = col;
            let ghost state_before = self.state;
            assert forall|i: int| 0 <= i < NROWS implies state_ok(#[trigger] col0@[i], now) by {
                assert(col0@[i] == self.state_at(i, c as int));
                assert(self.state_at(i, c as int) == old_self.state_at(i, c as int));
            }
            let mut r: usize = 0;
            while r < NROWS
                invariant
                    0 <= r <= NROWS,
                    0 <= c < NCOLS,
                    now == context.spec_time(),
                    col0 == self.state@[c as int],
                    self.state == state_before,
                    forall|i: int| 0 <= i < NROWS ==> state_ok(#[trigger] col0@[i], now),
                    forall|i: int| r <= i < NROWS ==> #[trigger] col@[i] == col0@[i],
                    forall|i: int| 0 <= i < r ==> state_ok(#[trigger] col@[i], now),
                    forall|r2: int, j: int| 0 <= r2 < NROWS && 0 <= j < c ==> (#[trigger] self.buffer.at(r2, j), self.state_at(r2, j))
                        == spec_delay(parameters.method, input.at(r2, j).value() != 0, old_self.state_at(r2, j), parameters.delay, now),
                    forall|i: int| 0 <= i < r ==> (#[trigger] self.buffer.at(i, c as int), col@[i])
                        == spec_delay(parameters.method, input.at(i, c as int).value() != 0, col0@[i], parameters.delay, now),
                decreases NROWS - r,
            {
                let is_true = input.get(r, c).is_truthy();
                let mut st = col[r];
                let o = match parameters.method {
                    DelayControlMethod::Debounce => debounce(is_true, &mut st, parameters.delay, now),
                    DelayControlMethod::Throttle => throttle(is_true, &mut st, parameters.delay, now),
                };
                col[r] = st;
                self.buffer.set(r, c, o);
                r = r + 1;
            }
            self.state[c] = col;
            proof {
                assert(self.state@ =~= state_before@.update(c as int, col));
                assert forall|i: int, j: int| 0 <= i < NROWS && 0 <= j < NCOLS && j != c implies #[trigger] self.state_at(i, j) == state_before@[j]@[i] by {}
                assert forall|i: int| 0 <= i < NROWS implies #[trigger] self.state_at(i, c as int) == col@[i] by {}
                assert forall|i: int, j: int| 0 <= i < NROWS && c + 1 <= j < NCOLS implies #[trigger] self.state_at(i, j) == old_self.state_at(i, j) by {
                    assert(self.state_at(i, j) == state_before@[j]@[i]);
                    assert(start_self.state_at(i, j) == old_self.state_at(i, j));
                }
                assert forall|i: int, j: int| 0 <= i < NROWS && 0 <= j < c + 1 implies (#[trigger] self.buffer.at(i, j), self.state_at(i, j))
                    == spec_delay(parameters.method, input.at(i, j).value() != 0, old_self.state_at(i, j), parameters.delay, now) by {
                    if j < c {
                        assert(self.state_at(i, j) == state_before@[j]@[i]);
                        assert(state_before@[j]@[i] == start_self.state_at(i, j));
                    } else {
                        assert(col0@[i] == start_self.state_at(i, j));
                        assert(start_self.state_at(i, j) == old_self.state_at(i, j));
                    }
                }
                assert forall|i: int, j: int| 0 <= i < NROWS && 0 <= j < c + 1 implies state_ok(#[trigger] self.state_at(i, j), now) by {
                    if j < c {
                        assert(self.state_at(i, j) == state_before@[j]@[i]);
                        assert(state_ok(start_self.state_at(i, j), now));
                    }
                }
            }
            c = c + 1;
        }
        &self.buffer
    }
}

/// The state of a delayed signal after its first `k` inputs, fed at `times`,
/// starting with no wait.
pub open spec fn run_state(method: DelayControlMethod, delay: u128, inputs: Seq<bool>, times: Seq<u128>, k: nat) -> Option<u128>
    decreases k,
{
    if k == 0 {
        None
    } else {
        spec_delay(method, inputs[k - 1], run_state(method, delay, inputs, times, (k - 1) as nat), delay, times[k - 1]).1
    }
}

/// The output of a delayed signal for its input number `k` (from 0), fed at
/// `times`, starting with no wait.
pub open spec fn run_output(method: DelayControlMethod, delay: u128, inputs: Seq<bool>, times: Seq<u128>, k: nat) -> bool {
    spec_delay(method, inputs[k as int], run_state(method, delay, inputs, times, k), delay, times[k as int]).0
}

/// Times that never run backwards.
pub open spec fn nondecreasing(times: Seq<u128>) -> bool {
    forall|a: int, b: int| 0 <= a <= b < times.len() ==> times[a] <= times[b]
}

/// While a debounced signal is within `delay` of its true input number `k`,
/// a wait is under way that started no earlier than that input.
proof fn lemma_debounce_waits(delay: u128, inputs: Seq<bool>, times: Seq<u128>, k: nat, m: nat)
    requires
        times.len() == inputs.len(),
        nondecreasing(times),
        k < m <= inputs.len(),
        inputs[k as int],
        times[m - 1] < times[k as int] + delay,
    ensures
        run_state(DelayControlMethod::Debounce, delay, inputs, times, m) matches Some(d) && times[k as int] <= d,
    decreases m,
{
    if m > k + 1 {
        lemma_debounce_waits(delay, inputs, times, k, (m - 1) as nat);
    }
}

/// Every true input restarts the debounce wait: whatever came before, no
/// output is true earlier than `delay` after a true input.
pub proof fn lemma_debounce_restarts(delay: u128, inputs: Seq<bool>, times: Seq<u128>, k: nat, j: nat)
    requires
        times.len() == inputs.len(),
        nondecreasing(times),
        k <= j < inputs.len(),
        inputs[k as int],
        times[j as int] < times[k as int] + delay,
    ensures
        !run_output(DelayControlMethod::Debounce, delay, inputs, times, j),
{
    if j > k {
        lemma_debounce_waits(delay, inputs, times, k, j);
    }
}

/// A debounced signal gives true at the first false input that comes `delay`
/// or more after the last true input.
pub proof fn lemma_debounce_fires_after_delay(delay: u128, inputs: Seq<bool>, times: Seq<u128>, k: nat, j: nat)
    requires
        times.len() == inputs.len(),
        k < j < inputs.len(),
        inputs[k as int],
        forall|m: int| k < m <= j ==> !#[trigger] inputs[m],
        forall|m: int| k < m < j ==> #[trigger] times[m] < times[k as int] + delay,
        times[k as int] + delay <= times[j as int],
    ensures
        run_output(DelayControlMethod::Debounce, delay, inputs, times, j),
{
    assert forall|m: nat| k < m <= j implies run_state(DelayControlMethod::Debounce, delay, inputs, times, m)
        == Some(times[k as int]) by {
        lemma_debounce_holds(delay, inputs, times, k, m);
    }
}

proof fn lemma_debounce_holds(delay: u128, inputs: Seq<bool>, times: Seq<u128>, k: nat, m: nat)
    requires
        times.len() == inputs.len(),
        k < m < inputs.len(),
        inputs[k as int],
        forall|i: int| k < i < m ==> !#[trigger] inputs[i],
        forall|i: int| k < i < m ==> #[trigger] times[i] < times[k as int] + delay,
    ensures
        run_state(DelayControlMethod::Debounce, delay, inputs, times, m) == Some(times[k as int]),
    decreases m,
{
    if m > k + 1 {
        lemma_debounce_holds(delay, inputs, times, k, (m - 1) as nat);
    }
}

/// While a throttled signal is within `delay` of its true output number `i`,
/// the wait that this output started is still under way.
proof fn lemma_throttle_holds(delay: u128, inputs: Seq<bool>, times: Seq<u128>, i: nat, m: nat)
    requires
        times.len() == inputs.len(),
        i < m < inputs.len(),
        run_output(DelayControlMethod::Throttle, delay, inputs, times, i),
        forall|l: int| i < l < m ==> #[trigger] times[l] < times[i as int] + delay,
    ensures
        run_state(DelayControlMethod::Throttle, delay, inputs, times, m) == Some(times[i as int]),
    decreases m,
{
    if m > i + 1 {
        lemma_throttle_holds(delay, inputs, times, i, (m - 1) as nat);
    }
}

/// A wait under way in a throttled signal was started by an earlier true output.
proof fn lemma_throttle_wait_origin(delay: u128, inputs: Seq<bool>, times: Seq<u128>, m: nat)
    requires
        times.len() == inputs.len(),
        m <= inputs.len(),
    ensures
        run_state(DelayControlMethod::Throttle, delay, inputs, times, m) matches Some(d) ==> exists|i: int|
            0 <= i < m && #[trigger] run_output(DelayControlMethod::Throttle, delay, inputs, times, i as nat) && d == times[i],
    decreases m,
{
    if m > 0 {
        let k = (m - 1) as nat;
        lemma_throttle_wait_origin(delay, inputs, times, k);
        if run_output(DelayControlMethod::Throttle, delay, inputs, times, k) {
            assert(run_state(DelayControlMethod::Throttle, delay, inputs, times, m) == Some(times[k as int]));
        }
    }
}

/// A throttled signal gives true for input number `j` exactly when that input
/// is true and every earlier true output lies `delay` or more before it. So
/// two true outputs are never closer than `delay`, and a true input is passed
/// as soon as the last true output is `delay` old.
pub proof fn lemma_throttle_run(delay: u128, inputs: Seq<bool>, times: Seq<u128>, j: nat)
    requires
        times.len() == inputs.len(),
        nondecreasing(times),
        j < inputs.len(),
    ensures
        run_output(DelayControlMethod::Throttle, delay, inputs, times, j) == (inputs[j as int] && forall|i: int|
            0 <= i < j && #[trigger] run_output(DelayControlMethod::Throttle, delay, inputs, times, i as nat)
                ==> times[i] + delay <= times[j as int]),
{
    let out = run_output(DelayControlMethod::Throttle, delay, inputs, times, j);
    lemma_throttle_wait_origin(delay, inputs, times, j);
    if out {
        assert forall|i: int| 0 <= i < j && #[trigger] run_output(DelayControlMethod::Throttle, delay, inputs, times, i as nat)
            implies times[i] + delay <= times[j as int] by {
            if times[j as int] < times[i] + delay {
                assert forall|l: int| i < l < j implies #[trigger] times[l] < times[i] + delay by {
                    assert(times[l] <= times[j as int]);
                }
                lemma_throttle_holds(delay, inputs, times, i as nat, j);
            }
        }
    }
}

/// Whether each scalar of `inputs` is non-zero.
pub open spec fn truthy<S: Scalar>(inputs: Seq<S>) -> Seq<bool> {
    inputs.map_values(|x: S| x.value() != 0)
}

/// Whether the element at row `r`, column `c` of each matrix is non-zero.
pub open spec fn element_truthy<const NROWS: usize, const NCOLS: usize, S: Scalar>(
    inputs: Seq<Matrix<NROWS, NCOLS, S>>,
    r: int,
    c: int,
) -> Seq<bool> {
    inputs.map_values(|m: Matrix<NROWS, NCOLS, S>| m.at(r, c).value() != 0)
}

/// A scalar block started from `default()` and driven by `process` with
/// `inputs` at `times` (`blocks[k]` before step `k`, `outs[k]` its output)
/// gives the outputs of one delayed signal started with no wait.
pub proof fn lemma_scalar_run<S: Scalar>(
    parameters: Parameters,
    blocks: Seq<DelayControlBlock<S>>,
    outs: Seq<bool>,
    inputs: Seq<S>,
    times: Seq<u128>,
)
    requires
        blocks.len() == inputs.len() + 1,
        outs.len() == inputs.len(),
        times.len() == inputs.len(),
        blocks[0].state is None,
        forall|k: int| 0 <= k < inputs.len() ==> (#[trigger] outs[k], blocks[k + 1].state) == spec_delay(
            parameters.method,
            inputs[k].value() != 0,
            blocks[k].state,
            parameters.delay,
            times[k],
        ),
    ensures
        forall|k: int| 0 <= k < inputs.len() ==> #[trigger] outs[k] == run_output(
            parameters.method,
            parameters.delay,
            truthy(inputs),
            times,
            k as nat,
        ),
{
    let b = truthy(inputs);
    assert forall|k: int| 0 <= k <= inputs.len() implies #[trigger] blocks[k].state == run_state(
        parameters.method,
        parameters.delay,
        b,
        times,
        k as nat,
    ) by {
        lemma_scalar_states(parameters, blocks, outs, inputs, times, k as nat);
    }
    assert forall|k: int| 0 <= k < inputs.len() implies #[trigger] outs[k] == run_output(
        parameters.method,
        parameters.delay,
        b,
        times,
        k as nat,
    ) by {
        assert(blocks[k].state == run_state(parameters.method, parameters.delay, b, times, k as nat));
        assert(b[k] == (inputs[k].value() != 0));
    }
}

proof fn lemma_scalar_states<S: Scalar>(
    parameters: Parameters,
    blocks: Seq<DelayControlBlock<S>>,
    outs: Seq<bool>,
    inputs: Seq<S>,
    times: Seq<u128>,
    k: nat,
)
    requires
        blocks.len() == inputs.len() + 1,
        outs.len() == inputs.len(),
        times.len() == inputs.len(),
        blocks[0].state is None,
        forall|j: int| 0 <= j < inputs.len() ==> (#[trigger] outs[j], blocks[j + 1].state) == spec_delay(
            parameters.method,
            inputs[j].value() != 0,
            blocks[j].state,
            parameters.delay,
            times[j],
        ),
        k <= inputs.len(),
    ensures
        blocks[k as int].state == run_state(parameters.method, parameters.delay, truthy(inputs), times, k),
    decreases k,
{
    if k > 0 {
        lemma_scalar_states(parameters, blocks, outs, inputs, times, (k - 1) as nat);
        let j = k - 1;
        assert((outs[j], blocks[j + 1].state) == spec_delay(
            parameters.method,
            inputs[j].value() != 0,
            blocks[j].state,
            parameters.delay,
            times[j],
        ));
        assert(truthy(inputs)[j] == (inputs[j].value() != 0));
    }
}

/// A matrix block started from `new()` and driven by `process` with `inputs`
/// at `times` gives, at every element, the outputs of one delayed signal fed
/// that element's inputs and started with no wait.
pub proof fn lemma_matrix_run<const NROWS: usize, const NCOLS: usize, S: Scalar>(
    parameters: Parameters,
    blocks: Seq<DelayControlMatrixBlock<NROWS, NCOLS, S>>,
    outs: Seq<Matrix<NROWS, NCOLS, bool>>,
    inputs: Seq<Matrix<NROWS, NCOLS, S>>,
    times: Seq<u128>,
)
    requires
        blocks.len() == inputs.len() + 1,
        outs.len() == inputs.len(),
        times.len() == inputs.len(),
        forall|r: int, c: int| 0 <= r < NROWS && 0 <= c < NCOLS ==> (#[trigger] blocks[0].state_at(r, c)) is None,
        forall|k: int, r: int, c: int|
            0 <= k < inputs.len() && 0 <= r < NROWS && 0 <= c < NCOLS ==> (#[trigger] outs[k].at(r, c), blocks[k + 1].state_at(r, c))
                == spec_delay(parameters.method, inputs[k].at(r, c).value() != 0, blocks[k].state_at(r, c), parameters.delay, times[k]),
    ensures
        forall|k: int, r: int, c: int|
            0 <= k < inputs.len() && 0 <= r < NROWS && 0 <= c < NCOLS ==> #[trigger] outs[k].at(r, c) == run_output(
                parameters.method,
                parameters.delay,
                element_truthy(inputs, r, c),
                times,
                k as nat,
            ),
{
    assert forall|k: int, r: int, c: int|
        0 <= k < inputs.len() && 0 <= r < NROWS && 0 <= c < NCOLS implies #[trigger] outs[k].at(r, c) == run_output(
            parameters.method,
            parameters.delay,
            element_truthy(inputs, r, c),
            times,
            k as nat,
        ) by {
        lemma_matrix_states(parameters, blocks, outs, inputs, times, r, c, k as nat);
        assert(element_truthy(inputs, r, c)[k] == (inputs[k].at(r, c).value() != 0));
        assert((outs[k].at(r, c), blocks[k + 1].state_at(r, c)) == spec_delay(
            parameters.method,
            inputs[k].at(r, c).value() != 0,
            blocks[k].state_at(r, c),
            parameters.delay,
            times[k],
        ));
    }
}

proof fn lemma_matrix_states<const NROWS: usize, const NCOLS: usize, S: Scalar>(
    parameters: Parameters,
    blocks: Seq<DelayControlMatrixBlock<NROWS, NCOLS, S>>,
    outs: Seq<Matrix<NROWS, NCOLS, bool>>,
    inputs: Seq<Matrix<NROWS, NCOLS, S>>,
    times: Seq<u128>,
    r: int,
    c: int,
    k: nat,
)
    requires
        blocks.len() == inputs.len() + 1,
        outs.len() == inputs.len(),
        times.len() == inputs.len(),
        0 <= r < NROWS,
        0 <= c < NCOLS,
        forall|r: int, c: int| 0 <= r < NROWS && 0 <= c < NCOLS ==> (#[trigger] blocks[0].state_at(r, c)) is None,
        forall|k: int, r: int, c: int|
            0 <= k < inputs.len() && 0 <= r < NROWS && 0 <= c < NCOLS ==> (#[trigger] outs[k].at(r, c), blocks[k + 1].state_at(r, c))
                == spec_delay(parameters.method, inputs[k].at(r, c).value() != 0, blocks[k].state_at(r, c), parameters.delay, times[k]),
        k <= inputs.len(),
    ensures
        blocks[k as int].state_at(r, c) == run_state(parameters.method, parameters.delay, element_truthy(inputs, r, c), times, k),
    decreases k,
{
    if k > 0 {
        lemma_matrix_states(parameters, blocks, outs, inputs, times, r, c, (k - 1) as nat);
        let j = k - 1;
        assert((outs[j].at(r, c), blocks[j + 1].state_at(r, c)) == spec_delay(
            parameters.method,
            inputs[j].at(r, c).value() != 0,
            blocks[j].state_at(r, c),
            parameters.delay,
            times[j],
        ));
        assert(element_truthy(inputs, r, c)[j] == (inputs[j].at(r, c).value() != 0));
    } else {
        assert(blocks[0].state_at(r, c) is None);
    }
}

/// Element by element, a matrix block behaves like one scalar block per
/// element: started fresh and driven with the same parameters and times, the
/// matrix block's output at row `r`, column `c` equals the output of a scalar
/// block fed that element of every input.
pub proof fn lemma_matrix_is_scalar_per_element<const NROWS: usize, const NCOLS: usize, S: Scalar>(
    parameters: Parameters,
    blocks: Seq<DelayControlMatrixBlock<NROWS, NCOLS, S>>,
    outs: Seq<Matrix<NROWS, NCOLS, bool>>,
    inputs: Seq<Matrix<NROWS, NCOLS, S>>,
    scalar_blocks: Seq<DelayControlBlock<S>>,
    scalar_outs: Seq<bool>,
    times: Seq<u128>,
    r: int,
    c: int,
)
    requires
        0 <= r < NROWS,
        0 <= c < NCOLS,
        blocks.len() == inputs.len() + 1,
        outs.len() == inputs.len(),
        times.len() == inputs.len(),
        forall|r: int, c: int| 0 <= r < NROWS && 0 <= c < NCOLS ==> (#[trigger] blocks[0].state_at(r, c)) is None,
        forall|k: int, r: int, c: int|
            0 <= k < inputs.len() && 0 <= r < NROWS && 0 <= c < NCOLS ==> (#[trigger] outs[k].at(r, c), blocks[k + 1].state_at(r, c))
                == spec_delay(parameters.method, inputs[k].at(r, c).value() != 0, blocks[k].state_at(r, c), parameters.delay, times[k]),
        scalar_blocks.len() == inputs.len() + 1,
        scalar_outs.len() == inputs.len(),
        scalar_blocks[0].state is None,
        forall|k: int| 0 <= k < inputs.len() ==> (#[trigger] scalar_outs[k], scalar_blocks[k + 1].state) == spec_delay(
            parameters.method,
            inputs[k].at(r, c).value() != 0,
            scalar_blocks[k].state,
            parameters.delay,
            times[k],
        ),
    ensures
        forall|k: int| 0 <= k < inputs.len() ==> #[trigger] outs[k].at(r, c) == scalar_outs[k],
{
    let elems = inputs.map_values(|m: Matrix<NROWS, NCOLS, S>| m.at(r, c));
    assert forall|k: int| 0 <= k < inputs.len() implies (#[trigger] scalar_outs[k], scalar_blocks[k + 1].state) == spec_delay(
        parameters.method,
        elems[k].value() != 0,
        scalar_blocks[k].state,
        parameters.delay,
        times[k],
    ) by {
        assert(elems[k] == inputs[k].at(r, c));
    }
    lemma_scalar_run(parameters, scalar_blocks, scalar_outs, elems, times);
    lemma_matrix_run(parameters, blocks, outs, inputs, times);
    assert(truthy(elems) =~= element_truthy(inputs, r, c));
    assert forall|k: int| 0 <= k < inputs.len() implies #[trigger] outs[k].at(r, c) == scalar_outs[k] by {
        assert(scalar_outs[k] == run_output(parameters.method, parameters.delay, truthy(elems), times, k as nat));
        assert(outs[k].at(r, c) == run_output(parameters.method, parameters.delay, element_truthy(inputs, r, c), times, k as nat));
    }
}

} // verus!
