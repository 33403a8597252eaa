//! Core of a randomized correctness harness for a pipelined associative-store
//! device: a reference model that mirrors the device's logical content, a
//! bounded recency queue that biases key selection, a latency-aware oracle for
//! lookups that resolve two cycles after issue, and the per-cycle scheduling
//! decisions for the fill and steady phases.  Everything that touches the
//! device itself is kept outside: each step function takes the sampled device
//! outputs as plain values and returns the signal assignments to drive.

pub mod harness;
pub mod model;
pub mod oracle;
pub mod recency;
pub mod rng;
pub mod sweep;
