//! The errors of the EDR provider.

use vstd::prelude::*;

use url::ParseError;

verus! {

/// What is wrong with the metadata of a collection.
#[derive(Clone, Copy, Debug, PartialEq, Eq)]
pub enum EdrProviderError {
    MissingVerticalExtent,
    MissingSpatialExtent,
    MissingTemporalExtent,
    NoSupportedOutputFormat,
    NoVectorSpecConfigured,
}

/// The error with which `url` rejects an address.
#[verifier::external_type_specification]
#[verifier::external_body]
pub struct ExParseError(url::ParseError);

/// Why the provider rejects a request.
#[derive(Debug, PartialEq, Eq)]
#[allow(inconsistent_fields)]
pub enum EdrError {
    InvalidLayerId,
    InvalidLayerCollectionId,
    InvalidDataId,
    InvalidAddress { source: ParseError },
    DatasetMetaData { source: EdrProviderError },
    InvalidNumberOfTimeSteps { expected: usize, found: usize },
    NotYetImplemented,
}

} // verus!
