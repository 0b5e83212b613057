//! Upload jobs: one file-to-destination-key task, produced by directory
//! discovery and consumed exactly once by a worker.

use vstd::prelude::*;

verus! {

/// One upload task: a source file and the object key it is uploaded under.
/// Immutable once created.
#[derive(Debug, PartialEq, Eq)]
pub struct UploadJob {
    pub source_path: String,
    pub destination_key: String,
}

} // verus!
