//! Aggregate statistics over the rolling window: error count and error
//! percentage across all live buckets, and a full reset.

use vstd::prelude::*;

use crate::window::Outcome;
use crate::window::Record;
use crate::window::Window;
use crate::window::rotated_anchor;

verus! {

use vstd::arithmetic::div_mod::lemma_div_is_ordered;
use vstd::arithmetic::div_mod::lemma_div_multiples_vanish;

/// `100 * failures / total`, and 0 when nothing was recorded yet (avoiding a
/// division by zero).
pub open spec fn percentage_spec(failures: int, total: int) -> int {
    if total <= 0 {
        0
    } else {
        100 * failures / total
    }
}

/// A thin aggregator over the rolling window.
pub struct CircuitBreakerStats {
    pub window: Window,
}

impl CircuitBreakerStats {
    pub open spec fn wf(self) -> bool {
        self.window.wf()
    }

    pub open spec fn history(self) -> Seq<Record> {
        self.window.history()
    }

    pub open spec fn anchor(self) -> int {
        self.window.anchor()
    }

    pub open spec fn size(self) -> int {
        self.window.size()
    }

    pub open spec fn bucket_count(self) -> int {
        self.window.bucket_count()
    }

    pub open spec fn successes(self) -> int {
        self.window.live_successes()
    }

    pub open spec fn failures(self) -> int {
        self.window.live_failures()
    }

    pub open spec fn total(self) -> int {
        self.window.live_total()
    }

    pub open spec fn percentage(self) -> int {
        percentage_spec(self.failures(), self.total())
    }

    /// Fresh statistics over an empty window anchored at `now`.
    pub fn new(buckets_in_window: usize, bucket_size_in_ms: u64, now: u64) -> (s: Self)
        requires
            buckets_in_window >= 1,
            bucket_size_in_ms >= 1,
        ensures
            s.wf(),
            s.history() == Seq::<Record>::empty(),
            s.anchor() == now,
            s.size() == bucket_size_in_ms,
            s.bucket_count() == buckets_in_window,
            s.successes() == 0,
            s.failures() == 0,
    {
        let s = CircuitBreakerStats {
            window: Window::new(buckets_in_window, bucket_size_in_ms, now),
        };
        s
    }

    /// Records one outcome at monotonic time `now` (ms).
    pub fn add_point(&mut self, point: Outcome, now: u64)
        requires
            old(self).wf(),
            now as int >= old(self).anchor(),
            old(self).total() < u64::MAX,
        ensures
            final(self).wf(),
            final(self).history() == old(self).history().push((point, now)),
            final(self).anchor() == rotated_anchor(
                old(self).anchor(),
                old(self).size(),
                old(self).bucket_count(),
                now as int,
            ),
            final(self).size() == old(self).size(),
            final(self).bucket_count() == old(self).bucket_count(),
            // within the current slice nothing ages out: the totals grow by
            // exactly this outcome
            (now as int) < old(self).anchor() + old(self).size() ==> final(self).successes()
                == old(self).successes() + (if point == Outcome::Success {
                1int
            } else {
                0int
            }) && final(self).failures() == old(self).failures() + (if point == Outcome::Failure {
                1int
            } else {
                0int
            }),
    {
        self.window.add_point(point, now);
    }

    /// Failures recorded within the live span of the window.
    pub fn error_count(&self) -> (r: u64)
        requires
            self.wf(),
        ensures
            r == self.failures(),
    {
        let (_successes, failures) = self.window.snapshot();
        failures
    }

    /// Outcomes of either kind recorded within the live span of the window.
    pub fn total_count(&self) -> (r: u64)
        requires
            self.wf(),
        ensures
            r == self.total(),
    {
        let (successes, failures) = self.window.snapshot();
        successes + failures
    }

    /// `100 * failures / (successes + failures)` over the live span, and 0
    /// when no outcomes are recorded yet.
    pub fn error_percentage(&self) -> (r: u64)
        requires
            self.wf(),
        ensures
            r == self.percentage(),
            r <= 100,
    {
        let (successes, failures) = self.window.snapshot();
        if successes == 0 && failures == 0 {
            return 0;
        }
        let total = successes + failures;
        let p128 = (failures as u128) * 100 / (total as u128);
        proof {
            let f = failures as int;
            let t = total as int;
            lemma_div_is_ordered(f * 100, t * 100, t);
            lemma_div_multiples_vanish(100, t);
            assert(t * 100 == 100 * t) by (nonlinear_arith);
            assert(f * 100 == 100 * f) by (nonlinear_arith);
            assert(f * 100 <= t * 100) by (nonlinear_arith)
                requires
                    f <= t,
            ;
        }
        p128 as u64
    }

    /// Resets every bucket; the window's anchor and shape stay as they are.
    pub fn clear(&mut self)
        requires
            old(self).wf(),
        ensures
            final(self).wf(),
            final(self).history() == Seq::<Record>::empty(),
            final(self).anchor() == old(self).anchor(),
            final(self).size() == old(self).size(),
            final(self).bucket_count() == old(self).bucket_count(),
            final(self).successes() == 0,
            final(self).failures() == 0,
            final(self).total() == 0,
            final(self).percentage() == 0,
    {
        self.window.clear();
    }
}

} // verus!
