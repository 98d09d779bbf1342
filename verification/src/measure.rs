//! The per-package measurement pipeline: what one package's download,
//! extraction and code-count attempts amount to.
//!
//! The outside work — the HTTP transfer, writing the archive into the
//! scratch directory, running the extraction and measurement tools,
//! clearing the directory — happens outside this crate.  Its observable
//! result arrives here as a [`MeasureEvent`], and this module decides what
//! the package's outcome is and enforces the scratch-workspace discipline.

use vstd::prelude::*;

verus! {

/// Why one package produced no output row.  An unpackable archive is *not*
/// among these: extraction failure is a degraded outcome that still yields
/// a row with zero lines (see [`outcome_of`]).
#[derive(Clone, Copy, Debug, PartialEq, Eq, Structural)]
pub enum PkgError {
    /// The archive download did not complete.
    DownloadFailed,
    /// The measurement tool exited with a non-success status.
    MeasureToolFailed,
    /// The measurement report could not be read, or holds no line count for
    /// the designated language.
    ReportUnusable,
}

/// How far the outside work on one package got, and what it produced.
pub enum MeasureEvent {
    /// The archive download did not complete; nothing was written to the
    /// scratch workspace.
    DownloadFailed,
    /// The archive was written, but the extraction tool exited with a
    /// non-success status.
    ExtractFailed,
    /// Extraction succeeded, but the measurement tool exited with a
    /// non-success status.
    MeasureToolFailed,
    /// The measurement tool succeeded and wrote this report to its standard
    /// output.
    Report(Vec<u8>),
}

/// The line count the measurement report carries for the designated
/// language, if the report parses and has one.  A function of the report
/// bytes alone.
pub uninterp spec fn report_code_count(report: Seq<u8>) -> Option<u64>;

/// Relies on `serde_json::from_slice` and `serde_json::Value::pointer` /
/// `Value::as_u64`: the `/Rust/code` integer of the parsed report, a
/// function of the report bytes alone.
#[verifier::external_body]
fn read_report_code_count(report: &Vec<u8>) -> (r: Option<u64>)
    ensures
        r == report_code_count(report@),
{
    serde_json::from_slice::<serde_json::Value>(report)
        .ok()
        .and_then(|v| v.pointer("/Rust/code").and_then(|p| p.as_u64()))
}

/// The outcome one package's events amount to: a line count when a row is
/// owed (zero for an unpackable archive), an error when the package is to
/// be skipped.
pub open spec fn outcome_of(ev: MeasureEvent) -> Result<u64, PkgError> {
    match ev {
        MeasureEvent::DownloadFailed => Err(PkgError::DownloadFailed),
        MeasureEvent::ExtractFailed => Ok(0u64),
        MeasureEvent::MeasureToolFailed => Err(PkgError::MeasureToolFailed),
        MeasureEvent::Report(report) => match report_code_count(report@) {
            Some(n) => Ok(n),
            None => Err(PkgError::ReportUnusable),
        },
    }
}

/// The final path segment of an archive-download request, the word
/// `download`.
pub open spec fn download_word() -> Seq<u8> {
    seq![100u8, 111u8, 119u8, 110u8, 108u8, 111u8, 97u8, 100u8]
}

/// The path segments an archive-download request appends to the registry's
/// base address: the package's name, its version, then `download`.
pub fn download_segments(id: &crate::row::CrateId) -> (r: Vec<Vec<u8>>)
    ensures
        r@.len() == 3,
        r@[0]@ == id.name@,
        r@[1]@ == id.version@,
        r@[2]@ == download_word(),
{
    let mut word: Vec<u8> = Vec::new();
    word.push(100);
    word.push(111);
    word.push(119);
    word.push(110);
    word.push(108);
    word.push(111);
    word.push(97);
    word.push(100);
    assert(word@ =~= download_word());
    let mut segs: Vec<Vec<u8>> = Vec::new();
    segs.push(id.name.clone());
    segs.push(id.version.clone());
    segs.push(word);
    segs
}

/// The state of the single reusable scratch directory, as the pipeline
/// tracks it.  The directory itself is outside this crate; the process
/// that owns it clears it on disk wherever this tracker records a return
/// to empty.
pub struct Scratch {
    occupied: bool,
}

impl Scratch {
    /// Nothing has been unpacked into the directory.
    pub closed spec fn is_empty(self) -> bool {
        !self.occupied
    }

    /// A fresh, empty scratch workspace.
    pub fn new() -> (r: Scratch)
        ensures
            r.is_empty(),
    {
        Scratch { occupied: false }
    }
}

/// Settles one package: reads its events off into an outcome, and leaves
/// the scratch workspace empty on every path — success, degraded, or
/// failure.
pub fn package_outcome(scratch: &mut Scratch, ev: &MeasureEvent) -> (r: Result<u64, PkgError>)
    requires
        old(scratch).is_empty(),
    ensures
        final(scratch).is_empty(),
        r == outcome_of(*ev),
{
    match ev {
        MeasureEvent::DownloadFailed => Err(PkgError::DownloadFailed),
        MeasureEvent::ExtractFailed => {
            scratch.occupied = true;
            scratch.occupied = false;
            Ok(0)
        },
        MeasureEvent::MeasureToolFailed => {
            scratch.occupied = true;
            scratch.occupied = false;
            Err(PkgError::MeasureToolFailed)
        },
        MeasureEvent::Report(report) => {
            scratch.occupied = true;
            let count = read_report_code_count(report);
            scratch.occupied = false;
            match count {
                Some(n) => Ok(n),
                None => Err(PkgError::ReportUnusable),
            }
        },
    }
}

} // verus!
