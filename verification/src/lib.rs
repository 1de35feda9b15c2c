//! A fault-tolerant command executor built around a circuit breaker.
//!
//! A time-bucketed rolling window tracks success/failure counts, a state
//! machine decides per invocation whether to allow, reject, or probe a
//! failing dependency, and a configuration layer resolves defaults once at
//! construction time.

pub mod breaker;
pub mod command;
pub mod config;
pub mod stats;
pub mod window;
