//! Snapshot pipeline for a package-collection metadata database.
//!
//! The library resolves the latest snapshot version of a distribution
//! channel, decides whether the local database is stale, normalizes the
//! heterogeneous JSON package manifest into relational rows, and plans the
//! all-or-nothing database refresh.  Everything that computes or decides is
//! here and verified; the surrounding process performs the network and
//! database calls that the pipeline's actions ask for.

use vstd::prelude::*;

pub mod json;
pub mod normalize;
pub mod parse;
pub mod pipeline;
pub mod resolve;
pub mod rows;

verus! {

/// The ways one pipeline run can fail.  Each failure is terminal for the
/// run; re-invoking the pipeline is the retry mechanism.
#[derive(Clone, Copy, Debug, PartialEq, Eq, Structural)]
pub enum PipeError {
    /// Both the primary and the fallback version probes failed.
    ResolutionFailed,
    /// The manifest download did not succeed.
    FetchFailed,
    /// The manifest did not match any recognized field shape.
    DecodeFailed,
    /// A database creation or bulk-load step failed.
    LoadFailed,
    /// A marker or directory filesystem operation failed.
    IoFailed,
}

} // verus!
