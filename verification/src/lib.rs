//! A micro-benchmark harness for timed trial batches.
//!
//! The library holds the verified core of a latency benchmark: a duration
//! type with exact arithmetic, the reduction of a batch of timed trials to
//! a mean duration or a first failure, and the bookkeeping of a buffered
//! file-read trial. The asynchronous runtimes that actually perform the
//! reads live outside the library and hand it plain values.

pub mod duration;
pub mod reader;
pub mod runner;
