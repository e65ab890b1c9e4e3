//! A cache for what was found out about datasets.

use vstd::prelude::*;

use crate::edr::vector::VectorDataType;
use crate::util::string_map::StringMap;

verus! {

/// What is remembered of a vector dataset.
#[derive(Clone, Copy, Debug, PartialEq, Eq)]
pub struct PartialVectorResultDescriptor {
    pub data_type: VectorDataType,
}

/// What is known of datasets, by their keys.
pub struct DatasetMetadata {
    descriptors: StringMap<PartialVectorResultDescriptor>,
}

impl View for DatasetMetadata {
    type V = Map<Seq<char>, PartialVectorResultDescriptor>;

    closed spec fn view(&self) -> Map<Seq<char>, PartialVectorResultDescriptor> {
        self.descriptors@
    }
}

impl DatasetMetadata {
    pub closed spec fn wf(&self) -> bool {
        self.descriptors.wf()
    }

    /// A cache in which nothing is known.
    pub fn new() -> (cache: Self)
        ensures
            cache.wf(),
            cache@ == Map::<Seq<char>, PartialVectorResultDescriptor>::empty(),
    {
        DatasetMetadata { descriptors: StringMap::new() }
    }
}

/// What was known is fetched without a change, and anything else is remembered.
pub open spec fn is_fetched(
    before: Map<Seq<char>, PartialVectorResultDescriptor>,
    after: Map<Seq<char>, PartialVectorResultDescriptor>,
    key: Seq<char>,
    fetched: PartialVectorResultDescriptor,
) -> bool {
    if before.contains_key(key) {
        fetched == before[key] && after == before
    } else {
        after == before.insert(key, fetched)
    }
}

/// What is known of a dataset, which is not loaded again. If it is not known yet, it is loaded, and
/// remembered unless that fails.
pub fn fetch_partial_metadata<E, L: FnOnce() -> Result<PartialVectorResultDescriptor, E>>(
    cache: &mut DatasetMetadata,
    cache_key: String,
    load: L,
) -> (descriptor: Result<PartialVectorResultDescriptor, E>)
    requires
        old(cache).wf(),
        !old(cache)@.contains_key(cache_key@) ==> call_requires(load, ()),
    ensures
        final(cache).wf(),
        !old(cache)@.contains_key(cache_key@) ==> call_ensures(load, (), descriptor),
        match descriptor {
            Ok(fetched) => is_fetched(old(cache)@, final(cache)@, cache_key@, fetched),
            Err(_) => !old(cache)@.contains_key(cache_key@) && final(cache)@ == old(cache)@,
        },
{
    if let Some(known) = cache.descriptors.get(cache_key.as_str()) {
        return Ok(*known);
    }
    match load() {
        Ok(loaded) => {
            cache.descriptors.insert(cache_key, loaded);
            Ok(loaded)
        },
        Err(error) => Err(error),
    }
}

/// What was fetched once is fetched again, without another change. Nothing else is forgotten or changed.
pub proof fn law_fetched_metadata_is_remembered(
    before: Map<Seq<char>, PartialVectorResultDescriptor>,
    after: Map<Seq<char>, PartialVectorResultDescriptor>,
    later: Map<Seq<char>, PartialVectorResultDescriptor>,
    key: Seq<char>,
    fetched: PartialVectorResultDescriptor,
    again: PartialVectorResultDescriptor,
)
    requires
        is_fetched(before, after, key, fetched),
        is_fetched(after, later, key, again),
    ensures
        after.contains_key(key),
        again == fetched,
        later == after,
        forall|other: Seq<char>|
            #![trigger after.contains_key(other)]
            other != key ==> (after.contains_key(other) <==> before.contains_key(other)) && (
            before.contains_key(other) ==> after[other] == before[other]),
{
}

} // verus!
