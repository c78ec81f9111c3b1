//! Captured output.

use vstd::prelude::*;

verus! {

/// One captured line.
#[derive(Debug, PartialEq, Eq)]
pub struct LogLine {
    /// When it was received, in milliseconds of Unix time.
    pub timestamp_ms: i64,
    /// `stdout`, `stderr` or `combined`.
    pub stream: String,
    /// The line without its newline.
    pub line: String,
    /// The run it belongs to.
    pub run_id: i64,
    /// Its number within the run.
    pub seq: i64,
}

} // verus!
