//! Core logic of a batch job that inventories the packages published by a
//! set of registry accounts, measures each package's lines of source code,
//! and appends one record per measured package to a growing metrics file.
//!
//! This crate holds the verified decision layer: the rate-limiter schedule,
//! the resume cursor over the account list, the per-package measurement
//! outcome rules, the scratch-workspace discipline, and the encoding of
//! metric rows for the output file.  The surrounding process (HTTP transfer,
//! subprocess invocation, file handling) lives outside and feeds this layer
//! plain values.

pub mod config;
pub mod digits;
pub mod driver;
pub mod limiter;
pub mod row;
pub mod measure;
pub mod sink;
