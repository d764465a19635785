//! Remote, range-addressed access to block-compressed genomic variant data.
//!
//! The library models the logic of a remote random-access pipeline: byte
//! ranges and their request headers, a seekable cursor over a remote object,
//! binning-index-driven region queries with early exit, a sampling iterator
//! over random genomic windows, and throttled progress reporting. Network
//! transport and file handling live outside the library and feed it plain
//! values.

pub mod config;
pub mod error;
pub mod gcs;
pub mod locus;
pub mod http;
pub mod num_str;
pub mod phenotype;
pub mod region;
pub mod region_iter;
pub mod sim;
pub mod stats;
pub mod tabix;
pub mod text;
