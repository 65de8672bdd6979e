//! Counts increments: each process step adds one to a counter whose
//! increment input is true, unless its reset input is true, which sets it
//! back to zero. Matrix counters count element by element, reset either by
//! one shared reset or by a reset per element.
use crate::context::Context;
use crate::matrix::Matrix;
use crate::scalar::Scalar;
use vstd::prelude::*;

verus! {

/// The counter value after one step: reset wins over increment.
pub open spec fn next_count(count: int, increment: bool, reset: bool) -> int {
    if reset {
        0
    } else if increment {
        count + 1
    } else {
        count
    }
}

/// The counter value after a run of (increment, reset) steps.
pub open spec fn count_after(count: int, steps: Seq<(bool, bool)>) -> int
    decreases steps.len(),
{
    if steps.len() == 0 {
        count
    } else {
        count_after(next_count(count, steps[0].0, steps[0].1), steps.drop_first())
    }
}

/// The number of increments in `steps` after the last reset.
pub open spec fn increments_since_reset(count: int, steps: Seq<(bool, bool)>) -> int
    decreases steps.len(),
{
    if steps.len() == 0 {
        count
    } else if steps.last().1 {
        0
    } else if steps.last().0 {
        increments_since_reset(count, steps.drop_last()) + 1
    } else {
        increments_since_reset(count, steps.drop_last())
    }
}

/// Run for a sequence of steps, a counter holds the number of increments
/// since the last reset (plus its start value when there was no reset).
pub proof fn lemma_counter_counts_since_reset(count: int, steps: Seq<(bool, bool)>)
    ensures
        count_after(count, steps) == increments_since_reset(count, steps),
    decreases steps.len(),
{
    if steps.len() > 0 {
        lemma_count_after_snoc(count, steps.drop_last(), steps.last());
        assert(steps.drop_last().push(steps.last()) =~= steps);
        lemma_counter_counts_since_reset(count, steps.drop_last());
    }
}

proof fn lemma_count_after_snoc(count: int, steps: Seq<(bool, bool)>, s: (bool, bool))
    ensures
        count_after(count, steps.push(s)) == next_count(count_after(count, steps), s.0, s.1),
    decreases steps.len(),
{
    if steps.len() == 0 {
        assert(steps.push(s).drop_first() =~= Seq::<(bool, bool)>::empty());
        assert(steps.push(s)[0] == s);
        assert(count_after(count, steps) == count);
        let n = next_count(count, s.0, s.1);
        assert(count_after(n, Seq::<(bool, bool)>::empty()) == n);
    } else {
        assert(steps.push(s)[0] == steps[0]);
        assert(steps.push(s).drop_first() =~= steps.drop_first().push(s));
        lemma_count_after_snoc(next_count(count, steps[0].0, steps[0].1), steps.drop_first(), s);
    }
}

/// The counter block takes no parameters.
#[derive(Clone, Copy, Debug, Default)]
pub struct Parameters {}

impl Parameters {
    pub fn new() -> (p: Self) {
        Parameters {}
    }
}

/// A scalar counter.
pub struct CounterBlock<T: Scalar> {
    pub count: T,
}

impl<T: Scalar> Default for CounterBlock<T> {
    fn default() -> (b: Self)
        ensures
            b.count.value() == 0,
    {
        CounterBlock { count: T::zero() }
    }
}

impl<T: Scalar> CounterBlock<T> {
    /// `inputs` is (increment, reset): reset sets the count to zero, otherwise
    /// increment adds one. The count must not pass the largest value of `T`.
    pub fn process<C: Context>(&mut self, _parameters: &Parameters, _context: &C, inputs: (bool, bool)) -> (out: T)
        requires
            inputs.1 || !inputs.0 || old(self).count.value() < T::max_value(),
        ensures
            out == final(self).count,
            out.value() == next_count(old(self).count.value(), inputs.0, inputs.1),
    {
        if inputs.1 {
            self.count = T::zero();
        } else if inputs.0 {
            self.count = self.count.inc();
        }
        self.count
    }
}

/// The count of one element after a step.
fn step<T: Scalar>(count: T, increment: bool, reset: bool) -> (r: T)
    requires
        reset || !increment || count.value() < T::max_value(),
    ensures
        r.value() == next_count(count.value(), increment, reset),
{
    if reset {
        T::zero()
    } else if increment {
        count.inc()
    } else {
        count
    }
}

/// A matrix of independent counters.
pub struct MatrixCounterBlock<const NROWS: usize, const NCOLS: usize, T: Scalar> {
    pub count: Matrix<NROWS, NCOLS, T>,
}

impl<const NROWS: usize, const NCOLS: usize, T: Scalar> Default for MatrixCounterBlock<NROWS, NCOLS, T> {
    fn default() -> (b: Self)
        ensures
            forall|r: int, c: int| 0 <= r < NROWS && 0 <= c < NCOLS ==> (#[trigger] b.count.at(r, c)).value() == 0,
    {
        MatrixCounterBlock { count: Matrix::zeroed() }
    }
}

impl<const NROWS: usize, const NCOLS: usize, T: Scalar> MatrixCounterBlock<NROWS, NCOLS, T> {
    /// `inputs` is (increments, resets), one of each per element.
    pub fn process<C: Context>(
        &mut self,
        _parameters: &Parameters,
        _context: &C,
        inputs: (&Matrix<NROWS, NCOLS, bool>, &Matrix<NROWS, NCOLS, bool>),
    ) -> (out: &Matrix<NROWS, NCOLS, T>)
        requires
            forall|r: int, c: int| 0 <= r < NROWS && 0 <= c < NCOLS ==> inputs.1.at(r, c) || !inputs.0.at(r, c)
                || (#[trigger] old(self).count.at(r, c)).value() < T::max_value(),
        ensures
            *out == final(self).count,
            forall|r: int, c: int| 0 <= r < NROWS && 0 <= c < NCOLS ==> (#[trigger] out.at(r, c)).value()
                == next_count(old(self).count.at(r, c).value(), inputs.0.at(r, c), inputs.1.at(r, c)),
    {
        let old_count = self.count;
        let mut c: usize = 0;
        while c < NCOLS
            invariant
                0 <= c <= NCOLS,
                forall|r: int, j: int| 0 <= r < NROWS && 0 <= j < NCOLS ==> inputs.1.at(r, j) || !inputs.0.at(r, j)
                    || (#[trigger] old_count.at(r, j)).value() < T::max_value(),
                forall|i: int, j: int| 0 <= i < NROWS && 0 <= j < c ==> (#[trigger] self.count.at(i, j)).value()
                    == next_count(old_count.at(i, j).value(), inputs.0.at(i, j), inputs.1.at(i, j)),
                forall|i: int, j: int| 0 <= i < NROWS && c <= j < NCOLS ==> #[trigger] self.count.at(i, j) == old_count.at(i, j),
            decreases NCOLS - c,
        {
            let mut r: usize = 0;
            while r < NROWS
                invariant
                    0 <= r <= NROWS,
                    0 <= c < NCOLS,
                    forall|i: int, j: int| 0 <= i < NROWS && 0 <= j < NCOLS ==> inputs.1.at(i, j) || !inputs.0.at(i, j)
                        || (#[trigger] old_count.at(i, j)).value() < T::max_value(),
                    forall|i: int, j: int| 0 <= i < NROWS && 0 <= j < c ==> (#[trigger] self.count.at(i, j)).value()
                        == next_count(old_count.at(i, j).value(), inputs.0.at(i, j), inputs.1.at(i, j)),
                    forall|i: int| 0 <= i < r ==> (#[trigger] self.count.at(i, c as int)).value()
                        == next_count(old_count.at(i, c as int).value(), inputs.0.at(i, c as int), inputs.1.at(i, c as int)),
                    forall|i: int, j: int| 0 <= i < NROWS && c <= j < NCOLS && (j != c || i >= r) ==> #[trigger] self.count.at(i, j) == old_count.at(i, j),
                decreases NROWS - r,
            {
                let v = step(self.count.get(r, c), inputs.0.get(r, c), inputs.1.get(r, c));
                self.count.set(r, c, v);
                r = r + 1;
            }
            c = c + 1;
        }
        &self.count
    }

    /// `inputs` is (increments, reset): one increment per element and a reset
    /// shared by all elements.
    pub fn process_single_reset<C: Context>(
        &mut self,
        _parameters: &Parameters,
        _context: &C,
        inputs: (&Matrix<NROWS, NCOLS, bool>, bool),
    ) -> (out: &Matrix<NROWS, NCOLS, T>)
        requires
            forall|r: int, c: int| 0 <= r < NROWS && 0 <= c < NCOLS ==> inputs.1 || !inputs.0.at(r, c)
                || (#[trigger] old(self).count.at(r, c)).value() < T::max_value(),
        ensures
            *out == final(self).count,
            forall|r: int, c: int| 0 <= r < NROWS && 0 <= c < NCOLS ==> (#[trigger] out.at(r, c)).value()
                == next_count(old(self).count.at(r, c).value(), inputs.0.at(r, c), inputs.1),
    {
        let old_count = self.count;
        let mut c: usize = 0;
        while c < NCOLS
            invariant
                0 <= c <= NCOLS,
                forall|r: int, j: int| 0 <= r < NROWS && 0 <= j < NCOLS ==> inputs.1 || !inputs.0.at(r, j)
                    || (#[trigger] old_count.at(r, j)).value() < T::max_value(),
                forall|i: int, j: int| 0 <= i < NROWS && 0 <= j < c ==> (#[trigger] self.count.at(i, j)).value()
                    == next_count(old_count.at(i, j).value(), inputs.0.at(i, j), inputs.1),
                forall|i: int, j: int| 0 <= i < NROWS && c <= j < NCOLS ==> #[trigger] self.count.at(i, j) == old_count.at(i, j),
            decreases NCOLS - c,
        {
            let mut r: usize = 0;
            while r < NROWS
                invariant
                    0 <= r <= NROWS,
                    0 <= c < NCOLS,
                    forall|i: int, j: int| 0 <= i < NROWS && 0 <= j < NCOLS ==> inputs.1 || !inputs.0.at(i, j)
                        || (#[trigger] old_count.at(i, j)).value() < T::max_value(),
                    forall|i: int, j: int| 0 <= i < NROWS && 0 <= j < c ==> (#[trigger] self.count.at(i, j)).value()
                        == next_count(old_count.at(i, j).value(), inputs.0.at(i, j), inputs.1),
                    forall|i: int| 0 <= i < r ==> (#[trigger] self.count.at(i, c as int)).value()
                        == next_count(old_count.at(i, c as int).value(), inputs.0.at(i, c as int), inputs.1),
                    forall|i: int, j: int| 0 <= i < NROWS && c <= j < NCOLS && (j != c || i >= r) ==> #[trigger] self.count.at(i, j) == old_count.at(i, j),
                decreases NROWS - r,
            {
                let v = step(self.count.get(r, c), inputs.0.get(r, c), inputs.1);
                self.count.set(r, c, v);
                r = r + 1;
            }
            c = c + 1;
        }
        &self.count
    }
}

} // verus!
