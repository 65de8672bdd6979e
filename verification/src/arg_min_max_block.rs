//! Index of the smallest or largest element of a matrix, counted in
//! column-major order (the "linear index"). For a 3x5 matrix:
//!
//! ```text
//! | 0 | 3 | 6 | 9 | 12 |
//! | 1 | 4 | 7 | 10| 13 |
//! | 2 | 5 | 8 | 11| 14 |
//! ```
//!
//! Among equal smallest elements the first one counts, among equal largest
//! elements the last one.
use crate::context::Context;
use crate::matrix::Matrix;
use crate::scalar::Scalar;
use crate::text::{bytes_equal, ParseEnumError};
use vstd::prelude::*;
use vstd::string::StringSliceAdditionalSpecFns;

verus! {

/// Whether the block looks for the smallest or the largest element.
#[derive(Clone, Copy, Debug, PartialEq, Eq, Structural)]
pub enum ArgMethod {
    Min,
    Max,
}

/// The variant named `s` (`"Min"`, `"Max"`).
pub open spec fn spec_parse_arg_method(s: Seq<u8>) -> Option<ArgMethod> {
    if s == "Min".spec_bytes() {
        Some(ArgMethod::Min)
    } else if s == "Max".spec_bytes() {
        Some(ArgMethod::Max)
    } else {
        None
    }
}

impl ArgMethod {
    /// The variant named `s` (`"Min"`, `"Max"`); `None` for any other text.
    pub fn parse(s: &str) -> (r: Option<Self>)
        ensures
            r == spec_parse_arg_method(s.spec_bytes()),
    {
        let b = s.as_bytes();
        if bytes_equal(b, "Min".as_bytes()) {
            Some(ArgMethod::Min)
        } else if bytes_equal(b, "Max".as_bytes()) {
            Some(ArgMethod::Max)
        } else {
            None
        }
    }

    /// The variant named `method`, which must name one.
    pub fn new(method: &str) -> (r: Self)
        requires
            spec_parse_arg_method(method.spec_bytes()) is Some,
        ensures
            Some(r) == spec_parse_arg_method(method.spec_bytes()),
    {
        Self::parse(method).unwrap()
    }
}

impl core::str::FromStr for ArgMethod {
    type Err = ParseEnumError;

    fn from_str(s: &str) -> (r: Result<Self, Self::Err>)
        ensures
            r == match spec_parse_arg_method(s.spec_bytes()) {
                Some(v) => Ok(v),
                None => Err(ParseEnumError),
            },
    {
        match Self::parse(s) {
            Some(v) => Ok(v),
            None => Err(ParseEnumError),
        }
    }
}

/// The index of the first smallest element of a non-empty `s`.
pub open spec fn first_min_index(s: Seq<int>) -> int
    decreases s.len(),
{
    if s.len() <= 1 {
        0
    } else {
        let k = first_min_index(s.drop_last());
        if s.last() < s[k] {
            s.len() - 1
        } else {
            k
        }
    }
}

/// The index of the last largest element of a non-empty `s`.
pub open spec fn last_max_index(s: Seq<int>) -> int
    decreases s.len(),
{
    if s.len() <= 1 {
        0
    } else {
        let k = last_max_index(s.drop_last());
        if s[k] <= s.last() {
            s.len() - 1
        } else {
            k
        }
    }
}

/// The index the block reports for `s`.
pub open spec fn arg_index(s: Seq<int>, method: ArgMethod) -> int {
    match method {
        ArgMethod::Min => first_min_index(s),
        ArgMethod::Max => last_max_index(s),
    }
}

/// The first smallest element: no element is smaller, and every element
/// before it is larger.
pub proof fn lemma_first_min_index(s: Seq<int>)
    requires
        s.len() >= 1,
    ensures
        0 <= first_min_index(s) < s.len(),
        forall|j: int| 0 <= j < s.len() ==> s[first_min_index(s)] <= #[trigger] s[j],
        forall|j: int| 0 <= j < first_min_index(s) ==> s[first_min_index(s)] < #[trigger] s[j],
    decreases s.len(),
{
    if s.len() > 1 {
        lemma_first_min_index(s.drop_last());
        assert(forall|j: int| 0 <= j < s.len() - 1 ==> s.drop_last()[j] == s[j]);
    }
}

/// The last largest element: no element is larger, and every element after
/// it is smaller.
pub proof fn lemma_last_max_index(s: Seq<int>)
    requires
        s.len() >= 1,
    ensures
        0 <= last_max_index(s) < s.len(),
        forall|j: int| 0 <= j < s.len() ==> #[trigger] s[j] <= s[last_max_index(s)],
        forall|j: int| last_max_index(s) < j < s.len() ==> #[trigger] s[j] < s[last_max_index(s)],
    decreases s.len(),
{
    if s.len() > 1 {
        lemma_last_max_index(s.drop_last());
        assert(forall|j: int| 0 <= j < s.len() - 1 ==> s.drop_last()[j] == s[j]);
    }
}

/// Reports the linear index of the smallest or largest element of its input.
pub struct ArgMinMaxBlock<T: Scalar> {
    pub buffer: Option<T>,
}

impl<T: Scalar> Default for ArgMinMaxBlock<T> {
    fn default() -> (b: Self)
        ensures
            b.buffer is None,
    {
        ArgMinMaxBlock { buffer: None }
    }
}

impl<T: Scalar> ArgMinMaxBlock<T> {
    /// A scalar has one element, so its index is 0.
    pub fn process<C: Context>(&mut self, _parameters: &ArgMethod, _context: &C, _input: T) -> (out: T)
        ensures
            out.value() == 0,
            final(self).buffer == Some(out),
    {
        let out = T::zero();
        self.buffer = Some(out);
        out
    }

    /// The linear index of the first smallest (`Min`) or last largest (`Max`)
    /// element. The matrix must not be empty, and the index must fit in `T`.
    pub fn process_matrix<const NROWS: usize, const NCOLS: usize, C: Context>(
        &mut self,
        parameters: &ArgMethod,
        _context: &C,
        input: &Matrix<NROWS, NCOLS, T>,
    ) -> (out: T)
        requires
            NROWS > 0,
            NCOLS > 0,
            NROWS * NCOLS <= usize::MAX,
            arg_index(input.values(), *parameters) <= T::max_value(),
        ensures
            out.value() == arg_index(input.values(), *parameters),
            final(self).buffer == Some(out),
    {
        let method = *parameters;
        let ghost s = input.values();
        let n: usize = NROWS * NCOLS;
        assert(NROWS * NCOLS >= 1) by (nonlinear_arith)
            requires
                NROWS > 0,
                NCOLS > 0,
        ;
        assert(s.len() == n);
        let mut best: usize = 0;
        let mut best_v: T = input.get_linear(0);
        let mut k: usize = 1;
        assert(s.take(1).len() == 1);
        while k < n
            invariant
                1 <= k <= n,
                n == NROWS * NCOLS,
                NROWS > 0,
                s == input.values(),
                s.len() == n,
                best < k,
                best_v.value() == s[best as int],
                best as int == arg_index(s.take(k as int), method),
            decreases n - k,
        {
            let v = input.get_linear(k);
            let ghost t = s.take(k + 1);
            assert(t.drop_last() =~= s.take(k as int));
            assert(t.last() == s[k as int]);
            assert(t[best as int] == s[best as int]);
            let better = match method {
                ArgMethod::Min => v.lt(best_v),
                ArgMethod::Max => !v.lt(best_v),
            };
            if better {
                best = k;
                best_v = v;
            }
            k = k + 1;
        }
        assert(s.take(n as int) =~= s);
        let out = T::from_usize(best);
        self.buffer = Some(out);
        out
    }
}

} // verus!
