//! A limit on how often something may happen within a span of time.
//!
//! Times are counted in units of the caller's choosing, from a start of
//! the caller's choosing.

use vstd::prelude::*;

verus! {

/// Lets through a number of hits within a time frame, and refuses the rest.
pub struct RateLimiter {
    pub max_hits: usize,
    pub time_frame: u64,
    /// The times of the hits that are held, the oldest first.
    pub hits: Vec<u64>,
}

/// Whether a hit at `stamp` lies further back from `now` than the time
/// frame reaches. A stamp that is later than `now` has not expired.
pub open spec fn has_expired(stamp: u64, now: u64, time_frame: u64) -> bool {
    now >= stamp && now - stamp > time_frame
}

/// How many hits in a row, counted from the one at `from`, have expired.
pub open spec fn expired_run(hits: Seq<u64>, now: u64, time_frame: u64, from: int) -> int
    decreases hits.len() - from,
{
    if from < 0 || from >= hits.len() || !has_expired(hits[from], now, time_frame) {
        0
    } else {
        1 + expired_run(hits, now, time_frame, from + 1)
    }
}

/// The hits that are still counted at `now`. Where two or more of the
/// oldest hits in a row have expired, they are forgotten; a single expired
/// hit at the front stays.
pub open spec fn counted_hits(hits: Seq<u64>, now: u64, time_frame: u64) -> Seq<u64> {
    let expired = expired_run(hits, now, time_frame, 0);
    if expired > 1 {
        hits.skip(expired)
    } else {
        hits
    }
}

impl RateLimiter {
    /// A limiter that has seen no hit yet.
    pub fn new(max_hits: usize, time_frame: u64) -> (limiter: RateLimiter)
        ensures
            limiter.max_hits == max_hits,
            limiter.time_frame == time_frame,
            limiter.hits@ == Seq::<u64>::empty(),
    {
        RateLimiter { max_hits, time_frame, hits: Vec::new() }
    }

    /// Asks whether a hit at the time `now` may pass. Expired hits are
    /// forgotten first, as [`counted_hits`] says. If more hits than
    /// `max_hits` are then still counted, this one is refused; otherwise it
    /// is let through and counted.
    pub fn hit(&mut self, now: u64) -> (passed: bool)
        ensures
            final(self).max_hits == old(self).max_hits,
            final(self).time_frame == old(self).time_frame,
            passed == (counted_hits(old(self).hits@, now, old(self).time_frame).len() <= old(
                self,
            ).max_hits),
            final(self).hits@ == if passed {
                counted_hits(old(self).hits@, now, old(self).time_frame).push(now)
            } else {
                counted_hits(old(self).hits@, now, old(self).time_frame)
            },
    {
        let ghost before = self.hits@;
        let frame = self.time_frame;
        let mut expired: usize = 0;
        while expired < self.hits.len() && now >= self.hits[expired] && now - self.hits[expired] > frame
            invariant
                expired <= self.hits@.len(),
                self.hits@ == before,
                self.time_frame == frame,
                self.max_hits == old(self).max_hits,
                expired_run(before, now, frame, 0) == expired + expired_run(
                    before,
                    now,
                    frame,
                    expired as int,
                ),
            decreases self.hits@.len() - expired,
        {
            expired += 1;
        }
        if expired > 1 {
            let kept = self.hits.split_off(expired);
            self.hits = kept;
            assert(self.hits@ =~= before.skip(expired as int));
        }
        if self.hits.len() > self.max_hits {
            return false;
        }
        self.hits.push(now);
        true
    }
}

} // verus!
