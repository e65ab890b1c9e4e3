//! The addresses of the metadata of collections.

use vstd::prelude::*;

use url::ParseError;

use crate::edr::error::EdrError;

verus! {

/// What `url::Url::join` makes of an address and of another one relative to it, or `None` if one of
/// them is rejected.
pub uninterp spec fn joined_address(base: Seq<char>, relative: Seq<char>) -> Option<Seq<char>>;

/// Resolves an address relative to a base address, both given as texts, with `url::Url::parse` and
/// `url::Url::join`. The result depends on the two texts alone.
#[verifier::external_body]
fn join_address(base: &str, relative: &str) -> (address: Result<String, ParseError>)
    ensures
        match address {
            Ok(address) => joined_address(base@, relative@) == Some(address@),
            Err(_) => joined_address(base@, relative@) is None,
        },
{
    Ok(url::Url::parse(base)?.join(relative)?.to_string())
}

/// The path of the metadata of a collection.
pub open spec fn collection_path(name: Seq<char>) -> Seq<char> {
    "collections/"@ + name + "?f=json"@
}

/// The path of the list of all collections.
pub open spec fn collections_path() -> Seq<char> {
    "collections?f=json"@
}

/// The path of the metadata of a collection.
pub fn get_collection_path(name: &str) -> (path: String)
    ensures
        path@ == collection_path(name@),
{
    "collections/".to_owned().concat(name).concat("?f=json")
}

/// The address of the metadata of a collection.
pub fn collection_address(base_url: &str, name: &str) -> (address: Result<String, EdrError>)
    ensures
        match address {
            Ok(address) => joined_address(base_url@, collection_path(name@)) == Some(address@),
            Err(error) => error is InvalidAddress && joined_address(
                base_url@,
                collection_path(name@),
            ) is None,
        },
{
    let path = get_collection_path(name);
    match join_address(base_url, path.as_str()) {
        Ok(address) => Ok(address),
        Err(source) => Err(EdrError::InvalidAddress { source }),
    }
}

/// The address of the list of all collections.
pub fn collections_address(base_url: &str) -> (address: Result<String, EdrError>)
    ensures
        match address {
            Ok(address) => joined_address(base_url@, collections_path()) == Some(address@),
            Err(error) => error is InvalidAddress && joined_address(
                base_url@,
                collections_path(),
            ) is None,
        },
{
    match join_address(base_url, "collections?f=json") {
        Ok(address) => Ok(address),
        Err(source) => Err(EdrError::InvalidAddress { source }),
    }
}

} // verus!
