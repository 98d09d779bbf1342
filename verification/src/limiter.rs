//! The polite-request schedule: no two outbound requests may start less than
//! a fixed interval apart.
//!
//! The limiter keeps an "earliest next start" timestamp.  Before each
//! request the caller hands it the current clock reading (milliseconds) and
//! receives the earliest instant at which the request may start; the caller
//! sleeps until that instant, and the limiter re-arms itself for one
//! interval past it.

use vstd::prelude::*;

verus! {

/// Process-local rate-limiter state: the spacing interval and, once a
/// request has been issued, the earliest instant the next one may start.
pub struct RateLimiter {
    pub interval_ms: u64,
    pub next_allowed_ms: Option<u64>,
}

/// The earliest start for a request arriving at `now`, given the armed
/// "next allowed" instant: immediately, or when the timer runs out,
/// whichever is later.
pub open spec fn earliest_start(next_allowed: Option<int>, now: int) -> int {
    match next_allowed {
        None => now,
        Some(t) => if now >= t {
            now
        } else {
            t
        },
    }
}

/// The armed instant of `l`, widened to a mathematical integer.
pub open spec fn armed_instant(l: RateLimiter) -> Option<int> {
    match l.next_allowed_ms {
        None => None,
        Some(t) => Some(t as int),
    }
}

impl RateLimiter {
    /// A fresh limiter lets its first request start at once.
    pub fn new(interval_ms: u64) -> (r: RateLimiter)
        ensures
            r.interval_ms == interval_ms,
            r.next_allowed_ms is None,
    {
        RateLimiter { interval_ms, next_allowed_ms: None }
    }

    /// Schedules one request: returns the earliest instant it may start and
    /// arms the limiter one interval past that instant.
    pub fn schedule(&mut self, now_ms: u64) -> (start: u64)
        requires
            now_ms + old(self).interval_ms <= u64::MAX,
            old(self).next_allowed_ms matches Some(t) ==> t + old(self).interval_ms
                <= u64::MAX,
        ensures
            start == earliest_start(armed_instant(*old(self)), now_ms as int),
            start >= now_ms,
            final(self).interval_ms == old(self).interval_ms,
            final(self).next_allowed_ms == Some((start + old(self).interval_ms) as u64),
            start + old(self).interval_ms <= u64::MAX,
    {
        let start = match self.next_allowed_ms {
            None => now_ms,
            Some(t) => if now_ms >= t {
                now_ms
            } else {
                t
            },
        };
        self.next_allowed_ms = Some(start + self.interval_ms);
        start
    }
}

/// The start instants of a run of requests arriving at the clock readings
/// `nows`, in order, beginning from the armed instant `next_allowed`.
pub open spec fn run_starts(next_allowed: Option<int>, interval: int, nows: Seq<int>) -> Seq<
    int,
>
    decreases nows.len(),
{
    if nows.len() == 0 {
        Seq::empty()
    } else {
        let t = earliest_start(next_allowed, nows[0]);
        seq![t] + run_starts(Some(t + interval), interval, nows.skip(1))
    }
}

/// A run of requests has one start instant per arrival.
pub proof fn lemma_run_starts_len(next_allowed: Option<int>, interval: int, nows: Seq<int>)
    ensures
        run_starts(next_allowed, interval, nows).len() == nows.len(),
    decreases nows.len(),
{
    if nows.len() > 0 {
        let t = earliest_start(next_allowed, nows[0]);
        lemma_run_starts_len(Some(t + interval), interval, nows.skip(1));
    }
}

/// Minimum spacing: over any run of consecutive requests, each start lies at
/// least one interval after the start before it, whatever the clock read at
/// each arrival.
pub proof fn lemma_min_spacing(
    next_allowed: Option<int>,
    interval: int,
    nows: Seq<int>,
    i: int,
)
    requires
        0 <= i,
        i + 1 < nows.len(),
    ensures
        run_starts(next_allowed, interval, nows)[i + 1] >= run_starts(
            next_allowed,
            interval,
            nows,
        )[i] + interval,
    decreases nows.len(),
{
    let t = earliest_start(next_allowed, nows[0]);
    let rest = run_starts(Some(t + interval), interval, nows.skip(1));
    let full = run_starts(next_allowed, interval, nows);
    lemma_run_starts_len(Some(t + interval), interval, nows.skip(1));
    assert(full == seq![t] + rest);
    assert(full[i + 1] == rest[i]);
    if i == 0 {
        assert(full[0] == t);
        assert(rest[0] == earliest_start(Some(t + interval), nows.skip(1)[0]));
        assert(rest[0] >= t + interval);
    } else {
        assert(full[i] == rest[i - 1]);
        lemma_min_spacing(Some(t + interval), interval, nows.skip(1), i - 1);
    }
}

} // verus!
