//! Support library for an N-body cluster simulation driver.
//!
//! The simulation itself integrates particle motion in floating point; this
//! crate holds the exactly-specified bookkeeping around it: reading the run
//! configuration (particle counts, model selector, output sizes), cleaning
//! console input, choosing the on-disk names of the output files, and the
//! decimal codec for the outer-step counter that the post-run tools read
//! back.

pub mod config;
pub mod decimal;
pub mod output;
pub mod text;
