//! The errors of the cache.

use vstd::prelude::*;

use lz4_flex::block::DecompressError;
use tokio::task::JoinError;

verus! {

/// The error with which `tokio` reports that a task has not run to its end.
#[verifier::external_type_specification]
#[verifier::external_body]
pub struct ExJoinError(tokio::task::JoinError);

#[derive(Debug)]
#[allow(inconsistent_fields)]
pub enum CacheError {
    ElementAndQueryDoNotIntersect,
    InvalidTypeForInsertion,
    CouldNotDecompressElement { source: DecompressError },
    CouldNotRunDecompressionTask { source: JoinError },
}

} // verus!
