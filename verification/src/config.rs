//! Configuration: a plain options struct whose unset fields receive
//! documented defaults exactly once, when an executor is constructed.

use vstd::prelude::*;

verus! {

pub const DEFAULT_ERROR_THRESHOLD: i32 = 10;

pub const DEFAULT_ERROR_THRESHOLD_PERCENTAGE: i32 = 50;

pub const DEFAULT_BUCKETS_IN_WINDOW: i32 = 10;

pub const DEFAULT_BUCKET_SIZE_IN_MS: u64 = 1000;

pub const DEFAULT_CIRCUIT_OPEN_MS: u64 = 5000;

pub const DEFAULT_THREADPOOL_SIZE: i32 = 10;

pub const DEFAULT_CIRCUIT_BREAKER_ENABLED: bool = true;

/// Options recognised by the executor; any field left `None` receives its
/// default at construction time.
#[derive(Clone, Copy, Debug)]
pub struct Config {
    pub error_threshold: Option<i32>,
    pub error_threshold_percentage: Option<i32>,
    pub buckets_in_window: Option<i32>,
    pub bucket_size_in_ms: Option<u64>,
    pub circuit_open_ms: Option<u64>,
    pub threadpool_size: Option<i32>,
    pub circuit_breaker_enabled: Option<bool>,
}

impl Config {
    /// A configuration with every option unset.
    pub fn new() -> (c: Config)
        ensures
            c == Config::unset(),
    {
        Config {
            error_threshold: None,
            error_threshold_percentage: None,
            buckets_in_window: None,
            bucket_size_in_ms: None,
            circuit_open_ms: None,
            threadpool_size: None,
            circuit_breaker_enabled: None,
        }
    }

    /// The configuration with every option unset.
    pub open spec fn unset() -> Config {
        Config {
            error_threshold: None,
            error_threshold_percentage: None,
            buckets_in_window: None,
            bucket_size_in_ms: None,
            circuit_open_ms: None,
            threadpool_size: None,
            circuit_breaker_enabled: None,
        }
    }

    /// Sets the minimum absolute failure count needed to trip the breaker.
    pub fn error_threshold(&mut self, error_threshold: i32) -> (ret: &mut Self)
        ensures
            *final(self) == *final(ret),
            *ret == (Config { error_threshold: Some(error_threshold), ..*old(self) }),
    {
        self.error_threshold = Some(error_threshold);
        self
    }

    /// Sets the minimum failure percentage (0-100) needed to trip the breaker.
    pub fn error_threshold_percentage(&mut self, error_threshold_percentage: i32) -> (ret:
        &mut Self)
        ensures
            *final(self) == *final(ret),
            *ret == (Config {
                error_threshold_percentage: Some(error_threshold_percentage),
                ..*old(self)
            }),
    {
        self.error_threshold_percentage = Some(error_threshold_percentage);
        self
    }

    /// Sets the number of buckets in the rolling window (positive).
    pub fn buckets_in_window(&mut self, buckets_in_window: i32) -> (ret: &mut Self)
        ensures
            *final(self) == *final(ret),
            *ret == (Config { buckets_in_window: Some(buckets_in_window), ..*old(self) }),
    {
        self.buckets_in_window = Some(buckets_in_window);
        self
    }

    /// Sets the duration of one bucket in milliseconds (positive).
    pub fn bucket_size_in_ms(&mut self, bucket_size_in_ms: u64) -> (ret: &mut Self)
        ensures
            *final(self) == *final(ret),
            *ret == (Config { bucket_size_in_ms: Some(bucket_size_in_ms), ..*old(self) }),
    {
        self.bucket_size_in_ms = Some(bucket_size_in_ms);
        self
    }

    /// Sets the cooldown in milliseconds while the circuit is open.
    pub fn circuit_open_ms(&mut self, circuit_open_ms: u64) -> (ret: &mut Self)
        ensures
            *final(self) == *final(ret),
            *ret == (Config { circuit_open_ms: Some(circuit_open_ms), ..*old(self) }),
    {
        self.circuit_open_ms = Some(circuit_open_ms);
        self
    }

    /// Sets the master switch: with `false` every call bypasses the breaker.
    pub fn circuit_breaker_enabled(&mut self, circuit_breaker_enabled: bool) -> (ret: &mut Self)
        ensures
            *final(self) == *final(ret),
            *ret == (Config {
                circuit_breaker_enabled: Some(circuit_breaker_enabled),
                ..*old(self)
            }),
    {
        self.circuit_breaker_enabled = Some(circuit_breaker_enabled);
        self
    }
}

/// A configuration with every option resolved; immutable once built.
#[derive(Clone, Copy, Debug)]
pub struct ResolvedConfig {
    pub error_threshold: i32,
    pub error_threshold_percentage: i32,
    pub buckets_in_window: i32,
    pub bucket_size_in_ms: u64,
    pub circuit_open_ms: u64,
    pub threadpool_size: i32,
    pub circuit_breaker_enabled: bool,
}

/// `v` where set, otherwise the default `d`.
pub open spec fn or_default<T>(v: Option<T>, d: T) -> T {
    match v {
        Some(x) => x,
        None => d,
    }
}

impl ResolvedConfig {
    /// The window must have at least one bucket and slices of at least 1 ms.
    pub open spec fn wf(self) -> bool {
        &&& self.buckets_in_window >= 1
        &&& self.bucket_size_in_ms >= 1
    }

    /// The exact outcome of substituting defaults for unset options.
    pub open spec fn resolved_from(config: Option<Config>) -> ResolvedConfig {
        let c = or_default(config, Config::unset());
        ResolvedConfig {
            error_threshold: or_default(c.error_threshold, DEFAULT_ERROR_THRESHOLD),
            error_threshold_percentage: or_default(
                c.error_threshold_percentage,
                DEFAULT_ERROR_THRESHOLD_PERCENTAGE,
            ),
            buckets_in_window: or_default(c.buckets_in_window, DEFAULT_BUCKETS_IN_WINDOW),
            bucket_size_in_ms: or_default(c.bucket_size_in_ms, DEFAULT_BUCKET_SIZE_IN_MS),
            circuit_open_ms: or_default(c.circuit_open_ms, DEFAULT_CIRCUIT_OPEN_MS),
            threadpool_size: or_default(c.threadpool_size, DEFAULT_THREADPOOL_SIZE),
            circuit_breaker_enabled: or_default(
                c.circuit_breaker_enabled,
                DEFAULT_CIRCUIT_BREAKER_ENABLED,
            ),
        }
    }

    /// Substitutes the documented default for every unset option. A set
    /// bucket count or bucket size must be positive.
    pub fn resolve(config: Option<Config>) -> (r: ResolvedConfig)
        requires
            (config matches Some(c) ==> (c.buckets_in_window matches Some(b) ==> b >= 1)),
            (config matches Some(c) ==> (c.bucket_size_in_ms matches Some(s) ==> s >= 1)),
        ensures
            r == ResolvedConfig::resolved_from(config),
            r.wf(),
    {
        let c = match config {
            Some(c) => c,
            None => Config::new(),
        };
        ResolvedConfig {
            error_threshold: match c.error_threshold {
                Some(v) => v,
                None => DEFAULT_ERROR_THRESHOLD,
            },
            error_threshold_percentage: match c.error_threshold_percentage {
                Some(v) => v,
                None => DEFAULT_ERROR_THRESHOLD_PERCENTAGE,
            },
            buckets_in_window: match c.buckets_in_window {
                Some(v) => v,
                None => DEFAULT_BUCKETS_IN_WINDOW,
            },
            bucket_size_in_ms: match c.bucket_size_in_ms {
                Some(v) => v,
                None => DEFAULT_BUCKET_SIZE_IN_MS,
            },
            circuit_open_ms: match c.circuit_open_ms {
                Some(v) => v,
                None => DEFAULT_CIRCUIT_OPEN_MS,
            },
            threadpool_size: match c.threadpool_size {
                Some(v) => v,
                None => DEFAULT_THREADPOOL_SIZE,
            },
            circuit_breaker_enabled: match c.circuit_breaker_enabled {
                Some(v) => v,
                None => DEFAULT_CIRCUIT_BREAKER_ENABLED,
            },
        }
    }
}

} // verus!
