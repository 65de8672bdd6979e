//! Staleness tracking for blocks that parse their input: the block stays valid
//! while its last successful parse is no older than a stale age.
use vstd::prelude::*;

verus! {

/// Whether a block's output is valid, and when it last parsed its input
/// successfully (nanoseconds).
#[derive(Debug, Clone, Copy, PartialEq, Eq)]
pub struct Validity {
    pub valid: bool,
    pub last_valid_time: Option<u128>,
}

impl Validity {
    /// The time since the last successful update; since time zero if there was none.
    pub open spec fn update_age(self, now: u128) -> int {
        now - match self.last_valid_time {
            Some(t) => t,
            None => 0u128,
        }
    }

    /// Time never runs backwards past the last successful update.
    pub open spec fn time_ok(self, now: u128) -> bool {
        self.last_valid_time matches Some(t) ==> t <= now
    }

    /// The state after an update attempt at time `now`: a success makes the
    /// output valid and records the time; a failure makes it invalid only once
    /// the last success is older than `stale_age`.
    pub open spec fn next(self, success: bool, now: u128, stale_age: u128) -> Validity {
        if success {
            Validity { valid: true, last_valid_time: Some(now) }
        } else if self.update_age(now) > stale_age {
            Validity { valid: false, last_valid_time: self.last_valid_time }
        } else {
            self
        }
    }

    /// Not valid, never updated.
    pub fn new() -> (v: Self)
        ensures
            !v.valid,
            v.last_valid_time.is_none(),
    {
        Validity { valid: false, last_valid_time: None }
    }

    /// Records the outcome of an update attempt at time `now`.
    pub fn update(&mut self, success: bool, now: u128, stale_age: u128)
        requires
            old(self).time_ok(now),
        ensures
            *final(self) == old(self).next(success, now, stale_age),
            final(self).time_ok(now),
    {
        let last = match self.last_valid_time {
            Some(t) => t,
            None => 0,
        };
        let update_age = now - last;
        if success {
            self.valid = true;
            self.last_valid_time = Some(now);
        } else if update_age > stale_age {
            self.valid = false;
        }
    }
}

/// The output is valid exactly when some update succeeded and the last
/// success is no older than `stale_age` at time `now`.
pub open spec fn tracks_staleness(v: Validity, now: u128, stale_age: u128) -> bool {
    v.valid <==> (v.last_valid_time matches Some(t) && now - t <= stale_age)
}

/// A block that was never updated is not valid.
pub proof fn lemma_new_tracks_staleness(now: u128, stale_age: u128)
    ensures
        tracks_staleness(Validity { valid: false, last_valid_time: None }, now, stale_age),
{
}

/// While time does not run backwards, every update keeps the output valid
/// exactly when the last successful update is no older than the stale age.
pub proof fn lemma_update_tracks_staleness(v: Validity, success: bool, now: u128, later: u128, stale_age: u128)
    requires
        tracks_staleness(v, now, stale_age),
        v.time_ok(now),
        now <= later,
    ensures
        tracks_staleness(v.next(success, later, stale_age), later, stale_age),
{
}

} // verus!
