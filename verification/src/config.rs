//! The run's configuration: where the scratch workspace, the input account
//! list and the output metrics file live, and which external executables
//! unpack archives and count code.
//!
//! Loading the configuration from disk is the surrounding process's work;
//! it hands this crate the settled values.

use vstd::prelude::*;

verus! {

/// Paths the batch works with, as handed in by the surrounding process.
pub struct Cfg {
    /// The scratch directory one archive at a time is unpacked into.
    pub work_dir: String,
    /// The ordered account-list input file.
    pub user_file: String,
    /// The append-only metrics output file.
    pub output_file: String,
    /// The archive-extraction executable.
    pub untar_exec: String,
    /// The code-measurement executable.
    pub tokei_exec: String,
}

} // verus!
