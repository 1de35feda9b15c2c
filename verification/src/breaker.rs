//! The circuit-breaker state machine: statistics plus an opened-at marker,
//! deciding per call whether to allow, reject, or probe.

use vstd::prelude::*;

use crate::config::ResolvedConfig;
use crate::stats::CircuitBreakerStats;
use crate::window::Outcome;
use crate::window::Record;
use crate::window::rotated_anchor;

verus! {

/// The logical state of the breaker, derived from the opened-at marker and
/// the current time; it is never stored explicitly.
#[derive(Clone, Copy, PartialEq, Eq, Structural, Debug)]
pub enum BreakerState {
    /// No trip since the last reset: every call is evaluated against the
    /// thresholds.
    Closed,
    /// Tripped, cooldown still running: every call is rejected.
    Open,
    /// Tripped, cooldown elapsed: the next call is the single recovery probe.
    Probing,
}

/// What the executor is to do with one invocation.
#[derive(Clone, Copy, PartialEq, Eq, Structural, Debug)]
pub enum CallDisposition {
    /// The breaker is administratively disabled: run the wrapped operation
    /// unconditionally, recording nothing.
    Bypass,
    /// Run the wrapped operation and record its outcome.
    Allowed,
    /// Do not run the wrapped operation; deliver the fallback or a rejection.
    Rejected,
}

/// Statistics, the opened-at timestamp, and a snapshot of the configuration.
pub struct CircuitBreaker {
    circuit_breaker_stats: CircuitBreakerStats,
    circuit_open_time: Option<u64>,
    config: ResolvedConfig,
}

impl CircuitBreaker {
    pub closed spec fn stats(self) -> CircuitBreakerStats {
        self.circuit_breaker_stats
    }

    /// `None` exactly while the breaker is logically closed; `Some(t)` from
    /// the moment it trips at `t` until the first cooldown-expiry probe.
    pub closed spec fn open_time(self) -> Option<u64> {
        self.circuit_open_time
    }

    pub closed spec fn cfg(self) -> ResolvedConfig {
        self.config
    }

    pub open spec fn history(self) -> Seq<Record> {
        self.stats().history()
    }

    pub open spec fn anchor(self) -> int {
        self.stats().anchor()
    }

    pub open spec fn successes(self) -> int {
        self.stats().successes()
    }

    pub open spec fn failures(self) -> int {
        self.stats().failures()
    }

    pub open spec fn total(self) -> int {
        self.stats().total()
    }

    pub open spec fn percentage(self) -> int {
        self.stats().percentage()
    }

    pub open spec fn wf(self) -> bool {
        &&& self.stats().wf()
        &&& self.cfg().wf()
        &&& self.stats().bucket_count() == self.cfg().buckets_in_window as int
        &&& self.stats().size() == self.cfg().bucket_size_in_ms as int
    }

    /// The Closed→Open trip condition: both the absolute error count and the
    /// error percentage meet their thresholds.
    pub open spec fn trip_condition(self) -> bool {
        &&& self.failures() >= self.cfg().error_threshold as int
        &&& self.percentage() >= self.cfg().error_threshold_percentage as int
    }

    /// The state at time `now`, derived from the opened-at marker: `Closed`
    /// with no marker; with a marker set at `t`, `Open` strictly before
    /// `t + circuit_open_ms` and `Probing` from that instant on.
    pub open spec fn state_at(self, now: int) -> BreakerState {
        match self.open_time() {
            None => BreakerState::Closed,
            Some(t) => if now >= t + self.cfg().circuit_open_ms {
                BreakerState::Probing
            } else {
                BreakerState::Open
            },
        }
    }

    /// A closed breaker over fresh, empty statistics anchored at `now`.
    pub fn new(config: ResolvedConfig, now: u64) -> (b: CircuitBreaker)
        requires
            config.wf(),
        ensures
            b.wf(),
            b.cfg() == config,
            b.open_time() is None,
            b.history() == Seq::<Record>::empty(),
            b.anchor() == now,
            b.failures() == 0,
            b.successes() == 0,
    {
        let stats = CircuitBreakerStats::new(
            config.buckets_in_window as usize,
            config.bucket_size_in_ms,
            now,
        );
        CircuitBreaker { circuit_breaker_stats: stats, circuit_open_time: None, config }
    }

    /// The derived state at time `now` (ms), per the opened-at marker.
    pub fn current_state(&self, now: u64) -> (s: BreakerState)
        ensures
            s == self.state_at(now as int),
    {
        match self.circuit_open_time {
            None => BreakerState::Closed,
            Some(t) => {
                if now >= t && now - t >= self.config.circuit_open_ms {
                    BreakerState::Probing
                } else {
                    BreakerState::Open
                }
            },
        }
    }

    /// The cooldown has elapsed on an open circuit.
    fn should_close_open_circuit(&self, now: u64) -> (r: bool)
        ensures
            r == (self.state_at(now as int) == BreakerState::Probing),
    {
        match self.circuit_open_time {
            None => false,
            Some(t) => now >= t && now - t >= self.config.circuit_open_ms,
        }
    }

    /// The circuit is open and the cooldown is still running.
    fn should_keep_circuit_open(&self, now: u64) -> (r: bool)
        ensures
            r == (self.state_at(now as int) == BreakerState::Open),
    {
        match self.circuit_open_time {
            None => false,
            Some(t) => now < t || now - t < self.config.circuit_open_ms,
        }
    }

    /// Both trip thresholds are met by the current statistics.
    fn should_open_circuit(&self) -> (r: bool)
        requires
            self.wf(),
        ensures
            r == self.trip_condition(),
    {
        let error_count = self.circuit_breaker_stats.error_count();
        let error_percentage = self.circuit_breaker_stats.error_percentage();
        let threshold = self.config.error_threshold;
        let threshold_percentage = self.config.error_threshold_percentage;
        let count_met = threshold <= 0 || error_count >= threshold as u64;
        let percentage_met = threshold_percentage <= 0 || error_percentage
            >= threshold_percentage as u64;
        count_met && percentage_met
    }

    /// Decides whether one call may run, in precedence order: an elapsed
    /// cooldown admits the single recovery probe and clears the marker; an
    /// open circuit rejects; a closed breaker whose statistics meet both
    /// thresholds trips — the marker is set to `now`, the statistics are
    /// cleared, and this call itself is rejected; otherwise the call runs.
    pub fn check_command_allowed(&mut self, now: u64) -> (allowed: bool)
        requires
            old(self).wf(),
        ensures
            final(self).wf(),
            final(self).cfg() == old(self).cfg(),
            // cooldown elapsed: the probe is allowed and the marker resets
            old(self).state_at(now as int) == BreakerState::Probing ==> allowed && final(self).open_time() is None && final(self).stats() == old(self).stats(),
            // cooldown running: rejected, nothing changes
            old(self).state_at(now as int) == BreakerState::Open ==> !allowed && *final(self)
                == *old(self),
            // closed, both thresholds met: trip — rejected, marker set, statistics cleared
            old(self).state_at(now as int) == BreakerState::Closed && old(self).trip_condition()
                ==> !allowed && final(self).open_time() == Some(now) && final(self).failures()
                == 0 && final(self).total() == 0 && final(self).percentage() == 0 && final(self).history() == Seq::<Record>::empty() && final(self).anchor() == old(self).anchor(),
            // closed, a threshold unmet: allowed, nothing changes
            old(self).state_at(now as int) == BreakerState::Closed && !old(self).trip_condition()
                ==> allowed && *final(self) == *old(self),
    {
        if self.should_close_open_circuit(now) {
            self.circuit_open_time = None;
            true
        } else if self.should_keep_circuit_open(now) {
            false
        } else if self.should_open_circuit() {
            self.circuit_open_time = Some(now);
            self.circuit_breaker_stats.clear();
            false
        } else {
            true
        }
    }

    /// Records the outcome of a call that was allowed to run, at monotonic
    /// time `now` (ms). Rejected calls never reach this.
    pub fn register_result<T, E>(&mut self, res: &Result<T, E>, now: u64)
        requires
            old(self).wf(),
            now as int >= old(self).anchor(),
            old(self).total() < u64::MAX,
        ensures
            final(self).wf(),
            final(self).history() == old(self).history().push(
                ((if *res is Ok {
                    Outcome::Success
                } else {
                    Outcome::Failure
                }), now),
            ),
            final(self).open_time() == old(self).open_time(),
            final(self).cfg() == old(self).cfg(),
            final(self).anchor() == rotated_anchor(
                old(self).anchor(),
                old(self).cfg().bucket_size_in_ms as int,
                old(self).cfg().buckets_in_window as int,
                now as int,
            ),
            // within the current slice nothing ages out: the totals grow by
            // exactly this outcome
            (now as int) < old(self).anchor() + old(self).cfg().bucket_size_in_ms ==> final(self).successes() == old(self).successes() + (if *res is Ok {
                1int
            } else {
                0int
            }) && final(self).failures() == old(self).failures() + (if *res is Ok {
                0int
            } else {
                1int
            }),
    {
        match res {
            Ok(_) => self.circuit_breaker_stats.add_point(Outcome::Success, now),
            Err(_) => self.circuit_breaker_stats.add_point(Outcome::Failure, now),
        }
    }

    /// The breaker's verdict on one invocation: a disabled breaker is
    /// bypassed entirely — the call runs unconditionally and no statistics
    /// are touched; otherwise the call is allowed or rejected exactly as
    /// `check_command_allowed` decides.
    pub fn evaluate(&mut self, now: u64) -> (d: CallDisposition)
        requires
            old(self).wf(),
        ensures
            final(self).wf(),
            final(self).cfg() == old(self).cfg(),
            // disabled: bypass, and the breaker is left exactly as it was
            !old(self).cfg().circuit_breaker_enabled ==> d == CallDisposition::Bypass && *final(self) == *old(self),
            old(self).cfg().circuit_breaker_enabled ==> d != CallDisposition::Bypass,
            old(self).cfg().circuit_breaker_enabled && old(self).state_at(now as int)
                == BreakerState::Probing ==> d == CallDisposition::Allowed && final(self).open_time() is None && final(self).stats() == old(self).stats(),
            old(self).cfg().circuit_breaker_enabled && old(self).state_at(now as int)
                == BreakerState::Open ==> d == CallDisposition::Rejected && *final(self) == *old(
                self,
            ),
            old(self).cfg().circuit_breaker_enabled && old(self).state_at(now as int)
                == BreakerState::Closed && old(self).trip_condition() ==> d
                == CallDisposition::Rejected && final(self).open_time() == Some(now) && final(self).failures() == 0 && final(self).total() == 0 && final(self).percentage() == 0,
            old(self).cfg().circuit_breaker_enabled && old(self).state_at(now as int)
                == BreakerState::Closed && !old(self).trip_condition() ==> d
                == CallDisposition::Allowed && *final(self) == *old(self),
    {
        if !self.config.circuit_breaker_enabled {
            CallDisposition::Bypass
        } else if self.check_command_allowed(now) {
            CallDisposition::Allowed
        } else {
            CallDisposition::Rejected
        }
    }

    /// Once open at time `t`, the derived state — and with it the verdict of
    /// `check_command_allowed` — flips exactly at `t + circuit_open_ms`:
    /// every call strictly before that instant finds the breaker `Open` and
    /// is rejected; the first call at or after it finds it `Probing`, is
    /// allowed, and resets the opened-at marker.
    pub proof fn lemma_cooldown_boundary(self, t: u64, now: int)
        requires
            self.open_time() == Some(t),
        ensures
            now < t + self.cfg().circuit_open_ms ==> self.state_at(now) == BreakerState::Open,
            now >= t + self.cfg().circuit_open_ms ==> self.state_at(now) == BreakerState::Probing,
    {
    }

    /// The opened-at marker, for callers that inspect the breaker.
    pub fn open_time_ms(&self) -> (t: Option<u64>)
        ensures
            t == self.open_time(),
    {
        self.circuit_open_time
    }

    /// The anchor of the statistics window; timestamps handed to
    /// `register_result` must not lie before it.
    pub fn anchor_time_ms(&self) -> (a: u64)
        ensures
            a as int == self.anchor(),
    {
        self.circuit_breaker_stats.window.anchor_time_ms()
    }

    /// Failures recorded within the live span.
    pub fn error_count(&self) -> (r: u64)
        requires
            self.wf(),
        ensures
            r == self.failures(),
    {
        self.circuit_breaker_stats.error_count()
    }

    /// Outcomes of either kind recorded within the live span.
    pub fn total_count(&self) -> (r: u64)
        requires
            self.wf(),
        ensures
            r == self.total(),
    {
        self.circuit_breaker_stats.total_count()
    }

    /// The error percentage over the live span.
    pub fn error_percentage(&self) -> (r: u64)
        requires
            self.wf(),
        ensures
            r == self.percentage(),
            r <= 100,
    {
        self.circuit_breaker_stats.error_percentage()
    }
}

} // verus!
