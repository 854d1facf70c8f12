//! Rate-limiter arithmetic: minimum spacing between outbound calls to one
//! provider, with self-paced claims and externally-observed back-off.
//!
//! Instants are milliseconds on a monotonic clock. The caller reads the
//! clock, takes the limiter's lock, runs one claim step, releases the lock
//! and sleeps for the returned duration — the lock is never held across the
//! sleep.

use vstd::prelude::*;

verus! {

/// How close to the allowance a caller may start without claiming a slot.
pub const CHECK_TOLERANCE: u64 = 15;

/// The spacing state of one provider.
#[derive(Debug, Clone, Copy, PartialEq, Eq, Structural)]
pub struct Limiter {
    /// The minimum spacing between calls, in milliseconds.
    pub wait_time: u64,
    /// When the next unclaimed call may start, if a call has happened.
    pub next_allowed_time: Option<u64>,
    /// The start time of the latest claimed slot, if one is outstanding.
    pub claimed_next_time: Option<u64>,
}

/// Addition that stops at the largest representable instant.
pub open spec fn sat_add(a: u64, b: u64) -> u64 {
    if a + b > u64::MAX {
        u64::MAX
    } else {
        (a + b) as u64
    }
}

/// What one claim step does and returns: the new state, and how long the
/// caller must still wait (`None`: it may call at once).
pub open spec fn spec_claim(s: Limiter, now: u64) -> (Limiter, Option<u64>) {
    match s.next_allowed_time {
        None => (
            Limiter { next_allowed_time: Some(sat_add(now, s.wait_time)), ..s },
            None,
        ),
        Some(allowed) => {
            if now > if allowed >= CHECK_TOLERANCE {
                (allowed - CHECK_TOLERANCE) as u64
            } else {
                allowed
            } {
                (Limiter { next_allowed_time: Some(sat_add(now, s.wait_time)), ..s }, None)
            } else {
                let slot = match s.claimed_next_time {
                    Some(claimed) => if claimed >= allowed {
                        sat_add(claimed, s.wait_time)
                    } else {
                        allowed
                    },
                    None => allowed,
                };
                (
                    Limiter { claimed_next_time: Some(slot), ..s },
                    Some(if slot >= now {
                        (slot - now) as u64
                    } else {
                        0
                    }),
                )
            }
        },
    }
}

/// The start time of the slot that a claiming step hands out.
pub open spec fn claimed_slot_of(s: Limiter, now: u64) -> u64 {
    spec_claim(s, now).0.claimed_next_time.unwrap()
}

impl Limiter {
    /// A limiter that spaces calls at least `time` milliseconds apart.
    pub fn new(time: u64) -> (r: Self)
        ensures
            r.wait_time == time,
            r.next_allowed_time is None,
            r.claimed_next_time is None,
    {
        Limiter { wait_time: time, next_allowed_time: None, claimed_next_time: None }
    }

    /// One claim step at instant `now`. `None` lets the caller call at once;
    /// `Some(d)` tells it to sleep `d` milliseconds and try again.
    pub fn try_claim_next(&mut self, now: u64) -> (r: Option<u64>)
        ensures
            (*final(self), r) == spec_claim(*old(self), now),
    {
        let wait = self.wait_time;
        match self.next_allowed_time {
            None => {
                self.next_allowed_time = Some(now.saturating_add(wait));
                None
            },
            Some(allowed) => {
                let threshold = if allowed >= CHECK_TOLERANCE {
                    allowed - CHECK_TOLERANCE
                } else {
                    allowed
                };
                if now > threshold {
                    self.next_allowed_time = Some(now.saturating_add(wait));
                    None
                } else {
                    let slot = match self.claimed_next_time {
                        Some(claimed) => if claimed >= allowed {
                            claimed.saturating_add(wait)
                        } else {
                            allowed
                        },
                        None => allowed,
                    };
                    self.claimed_next_time = Some(slot);
                    Some(if slot >= now {
                        slot - now
                    } else {
                        0
                    })
                }
            },
        }
    }

    /// Forces the next allowance to `now + duration` and invalidates any
    /// outstanding claimed slot; used when the remote signals back-off.
    pub fn allow_next_fetch_in(&mut self, now: u64, duration: u64)
        ensures
            final(self).wait_time == old(self).wait_time,
            final(self).next_allowed_time == Some(sat_add(now, duration)),
            final(self).claimed_next_time is None,
    {
        self.next_allowed_time = Some(now.saturating_add(duration));
        self.claimed_next_time = None;
    }
}

/// Claimed slots come out in first-in-first-out order, spaced no less than
/// `wait_time` apart: if one waiter claims a slot and a later waiter claims
/// the next, the later slot starts exactly `wait_time` after the earlier
/// one, and never earlier than the limiter's allowance. Saturation of the
/// millisecond clock is assumed absent.
pub proof fn lemma_claims_fifo_spaced(s: Limiter, now1: u64, now2: u64)
    requires
        spec_claim(s, now1).1 is Some,
        spec_claim(spec_claim(s, now1).0, now2).1 is Some,
        claimed_slot_of(s, now1) + s.wait_time <= u64::MAX,
    ensures
        claimed_slot_of(spec_claim(s, now1).0, now2) == claimed_slot_of(s, now1) + s.wait_time,
        claimed_slot_of(s, now1) >= s.next_allowed_time.unwrap(),
{
    let s1 = spec_claim(s, now1).0;
    assert(s1.claimed_next_time == Some(claimed_slot_of(s, now1)));
    assert(s1.next_allowed_time == s.next_allowed_time);
}

/// A claiming waiter never starts before the allowance: the wait it is told
/// to sleep carries it to its claimed slot, which is at or after
/// `next_allowed_time`.
pub proof fn lemma_claim_not_early(s: Limiter, now: u64)
    requires
        spec_claim(s, now).1 is Some,
    ensures
        claimed_slot_of(s, now) >= s.next_allowed_time.unwrap(),
        now + spec_claim(s, now).1.unwrap() >= claimed_slot_of(s, now),
{
}

} // verus!
