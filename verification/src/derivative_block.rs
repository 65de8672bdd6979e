//! The sample window of the derivative block: `N` slots written in turn, the
//! oldest one overwritten next. The derivative itself, a difference of
//! floating-point samples over time, is computed by the application code.
use vstd::prelude::*;

verus! {

/// Which slot of an `N`-slot window gets the next sample, and whether the
/// window is still filling up for the first time.
#[derive(Clone, Copy, Debug)]
pub struct SampleWindow<const N: usize> {
    pub index: usize,
    pub warming_up: bool,
}

impl<const N: usize> SampleWindow<N> {
    /// The window after `k` samples: the next slot is `k % N`, and it is
    /// still filling up while fewer than `N` samples came.
    pub open spec fn after(k: nat) -> Self {
        SampleWindow { index: (k % (N as nat)) as usize, warming_up: k < N }
    }

    /// An empty window: the first sample goes into slot 0.
    pub fn new() -> (w: Self)
        ensures
            w.index == 0,
            w.warming_up,
            N > 0 ==> w == Self::after(0),
    {
        SampleWindow { index: 0, warming_up: true }
    }

    /// Records a sample: returns the slot it goes into, and, once the window
    /// has filled up, the slot holding the oldest sample (the one written
    /// next).
    pub fn push(&mut self) -> (r: (usize, Option<usize>))
        requires
            N > 0,
            old(self).index < N,
        ensures
            r.0 == old(self).index,
            final(self).index == (old(self).index + 1) % (N as int),
            final(self).warming_up == (old(self).warming_up && old(self).index + 1 < N),
            r.1 == (if final(self).warming_up { None } else { Some(final(self).index) }),
    {
        let written = self.index;
        self.index = self.index + 1;
        if self.index >= N {
            self.index = 0;
            self.warming_up = false;
            proof {
                vstd::arithmetic::div_mod::lemma_mod_self_0(N as int);
            }
        } else {
            proof {
                vstd::arithmetic::div_mod::lemma_small_mod(self.index as nat, N as nat);
            }
        }
        let oldest = if self.warming_up { None } else { Some(self.index) };
        (written, oldest)
    }

    /// Pushing a sample into the window after `k` samples gives the window after
    /// `k + 1` samples: slots are written round-robin, and the window stops
    /// filling up at the `N`-th sample.
    pub proof fn lemma_round_robin(k: nat)
        requires
            N > 0,
        ensures
            Self::after(k).index < N,
            (Self::after(k).index + 1) % (N as int) == Self::after(k + 1).index,
            (Self::after(k).warming_up && Self::after(k).index + 1 < N) == Self::after(k + 1).warming_up,
    {
        let n = N as int;
        let q = k as int / n;
        let r = k as int % n;
        vstd::arithmetic::div_mod::lemma_fundamental_div_mod(k as int, n);
        vstd::arithmetic::div_mod::lemma_mod_bound(k as int, n);
        assert(q >= 0) by (nonlinear_arith)
            requires
                k as int == n * q + r,
                n > 0,
                0 <= r < n,
                k >= 0,
        ;
        assert(k < n <==> q == 0) by (nonlinear_arith)
            requires
                k as int == n * q + r,
                n > 0,
                0 <= r < n,
                q >= 0,
        ;
        if r + 1 < n {
            vstd::arithmetic::div_mod::lemma_fundamental_div_mod_converse(k as int + 1, n, q, r + 1);
            vstd::arithmetic::div_mod::lemma_small_mod((r + 1) as nat, N as nat);
            assert(k + 1 < n <==> q == 0) by (nonlinear_arith)
                requires
                    k as int + 1 == n * q + r + 1,
                    n > 0,
                    0 <= r + 1 < n,
                    q >= 0,
            ;
        } else {
            assert(k as int + 1 == (q + 1) * n + 0) by (nonlinear_arith)
                requires
                    k as int == n * q + r,
                    r + 1 == n,
            ;
            vstd::arithmetic::div_mod::lemma_fundamental_div_mod_converse(k as int + 1, n, q + 1, 0);
            vstd::arithmetic::div_mod::lemma_mod_self_0(n);
            assert(k + 1 >= n) by (nonlinear_arith)
                requires
                    k as int + 1 == (q + 1) * n,
                    n > 0,
                    q >= 0,
            ;
        }
    }
}

} // verus!
