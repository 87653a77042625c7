//! A harness for measuring the overhead of timestamp-acquisition calls.
//!
//! The library compares a baseline workload (repeatedly summing a fixed
//! integer sequence) against the same workload instrumented with timer calls
//! around each iteration. The deterministic parts — the workload checksum,
//! the per-sample bookkeeping, sorting, average and median selection, and
//! command-line argument parsing — are verified; the clock readings
//! themselves are opaque values obtained through trusted wrappers.

pub mod args;
pub mod clock;
pub mod harness;
pub mod stats;
pub mod strategies;
pub mod workload;
