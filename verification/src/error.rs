//! The ways in which a search can fail before or while it scans.

use vstd::prelude::*;

verus! {

/// Why a search was given up. Every failure is final: nothing is retried, and
/// a scan that failed is not taken up again.
#[derive(Debug, Clone, Copy, PartialEq, Eq, Structural)]
pub enum SearchError {
    /// Both a starting commit and a starting date were given.
    ConflictingSelectors,
    /// The starting date is in none of the accepted forms.
    UnrecognizedDate,
    /// No commit of the history has the starting identifier as a prefix.
    StartCommitNotFound,
    /// No commit of the history is at or before the starting date.
    StartDateNotFound,
    /// None of the candidate trunk references exists.
    NoTrunkReference,
    /// Every candidate commit has been recorded already.
    ScanComplete,
    /// The two trees hold more files than a score can count.
    TreesTooLarge,
    /// The commit's time cannot be written as a calendar date.
    TimeOutOfRange,
}

} // verus!
