//! Finds the commit of a tracked repository whose tree is closest to an
//! untracked copy of the working tree, by comparing file fingerprints.
//!
//! A tree is snapshotted as a mapping from relative path to the fingerprint of
//! the file's content ([`snapshot`], [`tree`], [`fingerprint`]). The candidate
//! commits are the history newest first, or the end piece of it that a
//! starting identifier or a starting date selects ([`commits`], [`dates`]).
//! Each candidate's tree is scored against the offline tree ([`scorer`]), the
//! first commit with the highest score is kept, and one record is emitted per
//! commit ([`search`]), which also says whether the commit lies on the trunk
//! ([`lineage`]). An optional list of files that are expected to be unchanged
//! is counted along ([`hints`]).
//!
//! The library reads no file and no repository: its callers walk the trees,
//! put each commit's tree on disk, and hand over what they found.

pub mod commits;
pub mod dates;
pub mod error;
pub mod fingerprint;
pub mod hints;
pub mod lineage;
pub mod scorer;
pub mod search;
pub mod snapshot;
pub mod text;
pub mod tree;
