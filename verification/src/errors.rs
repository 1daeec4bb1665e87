//! The failure taxonomy of the editor.

use vstd::prelude::*;
use crate::id::Oid;
use crate::RelativeTo;

verus! {

/// Why an edit session failed. Each variant names the stage and carries the
/// identity or name involved, so a caller can diagnose the failure without
/// inspecting internals.
///
/// Every stage returns its failure immediately; no stage attempts partial
/// recovery. Nothing is written to durable storage before materialization, so
/// any failure other than a storage write leaves the store untouched.
#[derive(Clone, Debug)]
pub enum Error {
    /// The anchor selector does not resolve to a commit of the plan; carries
    /// the selector that failed.
    AnchorNotFound(RelativeTo),
    /// A commit could not be serialized or identified during authoring or
    /// rebase, or its tree could not be determined from the graph context;
    /// carries the original identity of the failing step, where it had one.
    EncodingError(Option<Oid>),
    /// The backing store rejected a write during materialization; carries
    /// the identity whose object could not be written.
    StorageWriteError(Oid),
}

} // verus!
