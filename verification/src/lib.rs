//! Differential resource-accounting core of a host telemetry library.
//!
//! Raw, monotonically increasing kernel counters (per-CPU tick buckets,
//! per-process time and I/O counters) are turned into point-in-time rates by
//! retaining a previous sample and computing saturating deltas against the
//! elapsed interval. The acquisition of the raw text (pseudo-file reads,
//! process enumeration, signal delivery) is left to the embedding program;
//! this crate consumes plain byte slices and numeric tuples and exposes the
//! derived percentages, deltas and entity state.

pub mod arith;
pub mod cpu;
pub mod limits;
pub mod parse;
pub mod process;
