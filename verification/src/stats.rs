//! Aggregate statistics of a simulation run.

pub mod sample_stats;
