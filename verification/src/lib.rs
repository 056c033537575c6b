//! Per-entity network byte-rate capping.
//!
//! The core of this crate is a leaky-bucket rate limiter realised as a
//! virtual departure-time scheduler: every packet is either passed or
//! dropped immediately, in constant time, based on a small per-entity
//! state record.  The crate also defines the fixed-layout telemetry
//! record that carries each decision to a user-space collector.

pub mod hook;
pub mod laws;
pub mod rate;
pub mod store;
pub mod telemetry;
