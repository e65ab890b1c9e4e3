//! The registry of external data providers.

use vstd::prelude::*;

use crate::layers::laws::law_pages_follow_each_other;
use crate::layers::layer::{window, DataProviderId};
use crate::util::sort::{
    comes_before, is_stable_order, law_order_has_no_duplicates, list_keys, reordered, sort_listed,
    ListKey, Listed,
};
use crate::util::text::{
    law_text_less_is_irreflexive, law_text_less_is_total, law_text_less_is_transitive, text_less,
};

verus! {

/// A provider as it is shown in a list.
#[derive(Debug, PartialEq, Eq)]
pub struct LayerProviderListing {
    pub id: DataProviderId,
    pub name: String,
    pub description: String,
}

/// The mathematical content of a listed provider.
pub struct ProviderRow {
    pub id: u128,
    pub name: Seq<char>,
    pub description: Seq<char>,
}

impl View for LayerProviderListing {
    type V = ProviderRow;

    open spec fn view(&self) -> ProviderRow {
        ProviderRow { id: self.id.0, name: self.name@, description: self.description@ }
    }
}

impl Listed for LayerProviderListing {
    open spec fn list_key(&self) -> ListKey {
        ListKey { rank: 0, name: self.name@ }
    }

    fn get_rank(&self) -> (rank: u8) {
        0
    }

    fn get_name(&self) -> (name: &str) {
        self.name.as_str()
    }
}

/// Which providers are listed.
#[derive(Clone, Copy, Debug, PartialEq, Eq)]
pub struct LayerProviderListingOptions {
    pub offset: u32,
    pub limit: u32,
}

/// The reasons for which the registry rejects a request.
#[derive(Clone, Copy, Debug, PartialEq, Eq)]
pub enum LayerProviderDbError {
    UnknownProviderId,
}

/// A provider: what it says of itself and the definition that it is initialized from.
pub struct ProviderEntry<P> {
    pub id: DataProviderId,
    pub name: String,
    pub type_label: String,
    pub definition: P,
}

/// The mathematical content of a provider.
pub struct ProviderView<P> {
    pub name: Seq<char>,
    pub type_label: Seq<char>,
    pub definition: P,
}

impl<P> View for ProviderEntry<P> {
    type V = ProviderView<P>;

    open spec fn view(&self) -> ProviderView<P> {
        ProviderView {
            name: self.name@,
            type_label: self.type_label@,
            definition: self.definition,
        }
    }
}

/// The registered providers. No identifier occurs twice.
pub struct HashMapLayerProviderDbBackend<P> {
    external_providers: Vec<ProviderEntry<P>>,
}

spec fn has_id_at<P>(entries: Seq<ProviderEntry<P>>, i: int, id: u128) -> bool {
    0 <= i < entries.len() && entries[i].id.0 == id
}

spec fn entries_to_map<P>(entries: Seq<ProviderEntry<P>>) -> Map<u128, ProviderView<P>> {
    Map::new(
        |id: u128| exists|i: int| has_id_at(entries, i, id),
        |id: u128| entries[choose|i: int| has_id_at(entries, i, id)]@,
    )
}

spec fn has_distinct_ids<P>(entries: Seq<ProviderEntry<P>>) -> bool {
    forall|i: int, j: int|
        0 <= i < j < entries.len() ==> #[trigger] entries[i].id.0 != #[trigger] entries[j].id.0
}

impl<P> View for HashMapLayerProviderDbBackend<P> {
    type V = Map<u128, ProviderView<P>>;

    closed spec fn view(&self) -> Map<u128, ProviderView<P>> {
        entries_to_map(self.external_providers@)
    }
}

proof fn lemma_map_at<P>(entries: Seq<ProviderEntry<P>>, i: int)
    requires
        has_distinct_ids(entries),
        0 <= i < entries.len(),
    ensures
        entries_to_map(entries).contains_key(entries[i].id.0),
        entries_to_map(entries)[entries[i].id.0] == entries[i]@,
{
    assert(has_id_at(entries, i, entries[i].id.0));
    let j = choose|j: int| has_id_at(entries, j, entries[i].id.0);
    assert(i == j);
}

/// The row says what the provider says of itself.
pub open spec fn is_row_of<P>(providers: Map<u128, ProviderView<P>>, row: ProviderRow) -> bool {
    &&& providers.contains_key(row.id)
    &&& row.name == providers[row.id].name
    &&& row.description == providers[row.id].type_label
}

/// `rows` has one row for each provider, sorted by name. The order of providers with the same name
/// is left open.
pub open spec fn is_listing_of<P>(
    providers: Map<u128, ProviderView<P>>,
    rows: Seq<ProviderRow>,
) -> bool {
    &&& forall|i: int| 0 <= i < rows.len() ==> is_row_of(providers, #[trigger] rows[i])
    &&& forall|i: int, j: int|
        0 <= i < j < rows.len() ==> (#[trigger] rows[i]).id != (#[trigger] rows[j]).id
            && !text_less(rows[j].name, rows[i].name)
    &&& forall|id: u128| #[trigger]
        providers.contains_key(id) ==> exists|i: int| 0 <= i < rows.len() && rows[i].id == id
}

/// `page` is the requested part of a listing.
pub open spec fn is_page_of<P>(
    providers: Map<u128, ProviderView<P>>,
    options: LayerProviderListingOptions,
    page: Seq<ProviderRow>,
) -> bool {
    exists|rows: Seq<ProviderRow>| #[trigger]
        is_listing_of(providers, rows) && page == window(
            rows,
            options.offset as int,
            options.limit as int,
        )
}

pub open spec fn rows_view(listing: Seq<LayerProviderListing>) -> Seq<ProviderRow> {
    Seq::new(listing.len(), |i: int| listing[i]@)
}

/// Storage for the definitions of providers
pub trait LayerProviderDb<P: Clone> {
    /// The registered providers.
    spec fn providers(&self) -> Map<u128, ProviderView<P>>;

    spec fn providers_wf(&self) -> bool;

    /// Registers a provider; another one with the same identifier is replaced.
    fn add_layer_provider(&mut self, provider: ProviderEntry<P>) -> (id: Result<
        DataProviderId,
        LayerProviderDbError,
    >)
        requires
            old(self).providers_wf(),
        ensures
            final(self).providers_wf(),
            id == Ok::<DataProviderId, LayerProviderDbError>(provider.id),
            final(self).providers() == old(self).providers().insert(provider.id.0, provider@),
    ;

    /// Lists the providers by their names.
    fn list_layer_providers(&self, options: LayerProviderListingOptions) -> (listing: Result<
        Vec<LayerProviderListing>,
        LayerProviderDbError,
    >)
        requires
            self.providers_wf(),
        ensures
            listing is Ok,
            is_page_of(self.providers(), options, rows_view(listing->Ok_0@)),
    ;

    /// The definition from which a provider is initialized.
    fn load_layer_provider(&self, id: DataProviderId) -> (definition: Result<
        P,
        LayerProviderDbError,
    >)
        requires
            self.providers_wf(),
        ensures
            match definition {
                Ok(definition) => self.providers().contains_key(id.0) && cloned(
                    self.providers()[id.0].definition,
                    definition,
                ),
                Err(error) => !self.providers().contains_key(id.0) && error is UnknownProviderId,
            },
    ;
}

impl<P> HashMapLayerProviderDbBackend<P> {
    pub closed spec fn wf(&self) -> bool {
        has_distinct_ids(self.external_providers@)
    }

    fn find(&self, id: DataProviderId) -> (place: Option<usize>)
        ensures
            match place {
                Some(place) => has_id_at(self.external_providers@, place as int, id.0),
                None => !self@.contains_key(id.0),
            },
    {
        let mut i: usize = 0;
        while i < self.external_providers.len()
            invariant
                i <= self.external_providers@.len(),
                forall|j: int| 0 <= j < i ==> !has_id_at(self.external_providers@, j, id.0),
            decreases self.external_providers@.len() - i,
        {
            if self.external_providers[i].id.0 == id.0 {
                return Some(i);
            }
            i += 1;
        }
        None
    }

    /// One row for each provider.
    fn rows(&self) -> (listing: Vec<LayerProviderListing>)
        ensures
            listing@.len() == self.external_providers@.len(),
            forall|i: int|
                0 <= i < listing@.len() ==> (#[trigger] listing@[i])@ == (ProviderRow {
                    id: self.external_providers@[i].id.0,
                    name: self.external_providers@[i].name@,
                    description: self.external_providers@[i].type_label@,
                }),
    {
        let mut listing: Vec<LayerProviderListing> = Vec::new();
        let mut i: usize = 0;
        while i < self.external_providers.len()
            invariant
                i <= self.external_providers@.len(),
                listing@.len() == i,
                forall|j: int|
                    0 <= j < i ==> (#[trigger] listing@[j])@ == (ProviderRow {
                        id: self.external_providers@[j].id.0,
                        name: self.external_providers@[j].name@,
                        description: self.external_providers@[j].type_label@,
                    }),
            decreases self.external_providers@.len() - i,
        {
            let provider = &self.external_providers[i];
            listing.push(
                LayerProviderListing {
                    id: provider.id,
                    name: provider.name.clone(),
                    description: provider.type_label.clone(),
                },
            );
            i += 1;
        }
        listing
    }
}

impl<P> Default for HashMapLayerProviderDbBackend<P> {
    fn default() -> (backend: Self)
        ensures
            backend.wf(),
            backend@ == Map::<u128, ProviderView<P>>::empty(),
    {
        let backend = HashMapLayerProviderDbBackend { external_providers: Vec::new() };
        assert(backend@ =~= Map::<u128, ProviderView<P>>::empty());
        backend
    }
}

/// An order without duplicates has every place in it.
proof fn lemma_order_has_all(order: Seq<int>, place: int)
    requires
        order.no_duplicates(),
        forall|i: int| 0 <= i < order.len() ==> 0 <= #[trigger] order[i] < order.len(),
        0 <= place < order.len(),
    ensures
        exists|i: int| 0 <= i < order.len() && #[trigger] order[i] == place,
{
    let places = vstd::set_lib::set_int_range(0, order.len() as int);
    vstd::set_lib::lemma_int_range(0, order.len() as int);
    order.unique_seq_to_set();
    assert(order.to_set().subset_of(places));
    vstd::set_lib::lemma_subset_equality(order.to_set(), places);
    assert(places.contains(place));
    assert(order.to_set().contains(place));
    assert(order.contains(place));
    let i = choose|i: int| 0 <= i < order.len() && order[i] == place;
    assert(order[i] == place);
}

/// Sorted rows are a listing.
proof fn lemma_sorted_rows<P>(
    entries: Seq<ProviderEntry<P>>,
    rows: Seq<LayerProviderListing>,
    sorted: Seq<LayerProviderListing>,
    order: Seq<int>,
)
    requires
        has_distinct_ids(entries),
        rows.len() == entries.len(),
        forall|i: int|
            0 <= i < rows.len() ==> (#[trigger] rows[i])@ == (ProviderRow {
                id: entries[i].id.0,
                name: entries[i].name@,
                description: entries[i].type_label@,
            }),
        is_stable_order(list_keys(rows), order),
        sorted == reordered(rows, order),
    ensures
        is_listing_of(entries_to_map(entries), rows_view(sorted)),
{
    let listing = rows_view(sorted);
    law_order_has_no_duplicates(list_keys(rows), order);
    assert forall|i: int| 0 <= i < listing.len() implies is_row_of(
        entries_to_map(entries),
        #[trigger] listing[i],
    ) by {
        lemma_map_at(entries, order[i]);
        assert(listing[i] == rows[order[i]]@);
    }
    assert forall|i: int, j: int| 0 <= i < j < listing.len() implies (#[trigger] listing[i]).id != (
    #[trigger] listing[j]).id && !text_less(listing[j].name, listing[i].name) by {
        assert(listing[i] == rows[order[i]]@);
        assert(listing[j] == rows[order[j]]@);
        assert(order[i] != order[j]);
        if order[i] < order[j] {
            assert(entries[order[i]].id.0 != entries[order[j]].id.0);
        } else {
            assert(entries[order[j]].id.0 != entries[order[i]].id.0);
        }
        assert(comes_before(list_keys(rows), order[i], order[j]));
        if text_less(rows[order[i]].name@, rows[order[j]].name@) && text_less(
            rows[order[j]].name@,
            rows[order[i]].name@,
        ) {
            law_text_less_is_transitive(
                rows[order[i]].name@,
                rows[order[j]].name@,
                rows[order[i]].name@,
            );
            law_text_less_is_irreflexive(rows[order[i]].name@);
        }
    }
    assert forall|id: u128| #[trigger]
        entries_to_map(entries).contains_key(id) implies exists|i: int|
        0 <= i < listing.len() && listing[i].id == id by {
        let place = choose|place: int| has_id_at(entries, place, id);
        lemma_order_has_all(order, place);
        let i = choose|i: int| 0 <= i < order.len() && #[trigger] order[i] == place;
        assert(listing[i] == rows[order[i]]@);
    }
}

impl<P: Clone> LayerProviderDb<P> for HashMapLayerProviderDbBackend<P> {
    open spec fn providers(&self) -> Map<u128, ProviderView<P>> {
        self@
    }

    open spec fn providers_wf(&self) -> bool {
        self.wf()
    }

    fn add_layer_provider(&mut self, provider: ProviderEntry<P>) -> (id: Result<
        DataProviderId,
        LayerProviderDbError,
    >) {
        let id = provider.id;
        let ghost before = self.external_providers@;
        let place = self.find(id);
        match place {
            Some(place) => {
                let _ = self.external_providers.remove(place);
            },
            None => {},
        }
        let ghost rest = self.external_providers@;
        self.external_providers.push(provider);
        proof {
            let after = self.external_providers@;
            match place {
                Some(place) => {
                    lemma_remove(before, place as int);
                },
                None => {
                    assert(entries_to_map(before).remove(id.0) =~= entries_to_map(before));
                },
            }
            lemma_push(rest, provider);
            assert(entries_to_map(before).remove(id.0).insert(id.0, provider@) =~= entries_to_map(
                before,
            ).insert(id.0, provider@));
        }
        Ok(id)
    }

    fn list_layer_providers(&self, options: LayerProviderListingOptions) -> (listing: Result<
        Vec<LayerProviderListing>,
        LayerProviderDbError,
    >) {
        let rows = self.rows();
        let ghost unsorted = rows@;
        let mut sorted = sort_listed(rows);
        let ghost all = sorted@;
        proof {
            let order = choose|order: Seq<int>| #[trigger]
                is_stable_order(list_keys(unsorted), order) && all == reordered(unsorted, order);
            lemma_sorted_rows(self.external_providers@, unsorted, all, order);
        }
        let offset: usize = options.offset as usize;
        let limit: usize = options.limit as usize;
        let mut listing = if offset < sorted.len() {
            sorted.split_off(offset)
        } else {
            Vec::new()
        };
        listing.truncate(limit);
        proof {
            let rows = rows_view(all);
            assert(is_listing_of(self.providers(), rows));
            assert(rows_view(listing@) =~= window(
                rows,
                options.offset as int,
                options.limit as int,
            ));
        }
        Ok(listing)
    }

    fn load_layer_provider(&self, id: DataProviderId) -> (definition: Result<
        P,
        LayerProviderDbError,
    >) {
        match self.find(id) {
            Some(place) => {
                proof {
                    lemma_map_at(self.external_providers@, place as int);
                }
                Ok(self.external_providers[place].definition.clone())
            },
            None => Err(LayerProviderDbError::UnknownProviderId),
        }
    }
}

/// Without an entry, its identifier is gone.
proof fn lemma_remove<P>(before: Seq<ProviderEntry<P>>, place: int)
    requires
        has_distinct_ids(before),
        0 <= place < before.len(),
    ensures
        has_distinct_ids(before.remove(place)),
        entries_to_map(before.remove(place)) == entries_to_map(before).remove(before[place].id.0),
{
    let after = before.remove(place);
    let id = before[place].id.0;
    let expected = entries_to_map(before).remove(id);
    assert forall|k: u128| #[trigger] entries_to_map(after).contains_key(k)
        <==> expected.contains_key(k) by {
        if entries_to_map(after).contains_key(k) {
            let i = choose|i: int| has_id_at(after, i, k);
            assert(has_id_at(
                before,
                if i < place {
                    i
                } else {
                    i + 1
                },
                k,
            ));
        }
        if expected.contains_key(k) {
            let i = choose|i: int| has_id_at(before, i, k);
            assert(has_id_at(
                after,
                if i < place {
                    i
                } else {
                    i - 1
                },
                k,
            ));
        }
    }
    assert forall|k: u128| #[trigger] entries_to_map(after).contains_key(k) implies entries_to_map(
        after,
    )[k] == expected[k] by {
        let i = choose|i: int| has_id_at(after, i, k);
        lemma_map_at(after, i);
        lemma_map_at(
            before,
            if i < place {
                i
            } else {
                i + 1
            },
        );
    }
    assert(entries_to_map(after) =~= expected);
}

/// A new entry has a new identifier.
proof fn lemma_push<P>(before: Seq<ProviderEntry<P>>, entry: ProviderEntry<P>)
    requires
        has_distinct_ids(before),
        !entries_to_map(before).contains_key(entry.id.0),
    ensures
        has_distinct_ids(before.push(entry)),
        entries_to_map(before.push(entry)) == entries_to_map(before).insert(entry.id.0, entry@),
{
    let after = before.push(entry);
    let expected = entries_to_map(before).insert(entry.id.0, entry@);
    assert forall|i: int, j: int| 0 <= i < j < after.len() implies #[trigger] after[i].id.0
        != #[trigger] after[j].id.0 by {
        if j == before.len() && after[i].id.0 == entry.id.0 {
            assert(has_id_at(before, i, entry.id.0));
        }
    }
    assert forall|k: u128| #[trigger] entries_to_map(after).contains_key(k)
        <==> expected.contains_key(k) by {
        if entries_to_map(after).contains_key(k) {
            let i = choose|i: int| has_id_at(after, i, k);
            if i < before.len() {
                assert(has_id_at(before, i, k));
            }
        }
        if expected.contains_key(k) {
            if k == entry.id.0 {
                assert(has_id_at(after, before.len() as int, k));
            } else {
                let i = choose|i: int| has_id_at(before, i, k);
                assert(has_id_at(after, i, k));
            }
        }
    }
    assert forall|k: u128| #[trigger] entries_to_map(after).contains_key(k) implies entries_to_map(
        after,
    )[k] == expected[k] by {
        let i = choose|i: int| has_id_at(after, i, k);
        lemma_map_at(after, i);
        if i < before.len() {
            lemma_map_at(before, i);
            assert(has_id_at(before, i, k));
        }
    }
    assert(entries_to_map(after) =~= expected);
}

/// No two providers have the same name.
pub open spec fn has_distinct_names<P>(providers: Map<u128, ProviderView<P>>) -> bool {
    forall|id: u128, other: u128| #[trigger]
        providers.contains_key(id) && #[trigger] providers.contains_key(other) && id != other
            ==> providers[id].name != providers[other].name
}

/// Listings of providers with different names agree at a place if they agree in front of it.
proof fn lemma_listings_agree_at<P>(
    providers: Map<u128, ProviderView<P>>,
    rows: Seq<ProviderRow>,
    other: Seq<ProviderRow>,
    place: int,
)
    requires
        has_distinct_names(providers),
        is_listing_of(providers, rows),
        is_listing_of(providers, other),
        0 <= place < rows.len(),
        place <= other.len(),
        rows.take(place) == other.take(place),
    ensures
        exists|i: int| place <= i < other.len() && #[trigger] other[i] == rows[place],
        place < other.len() && rows[place] != other[place] ==> text_less(
            other[place].name,
            rows[place].name,
        ),
{
    let row = rows[place];
    assert(is_row_of(providers, row));
    let i = choose|i: int| 0 <= i < other.len() && other[i].id == row.id;
    assert(is_row_of(providers, other[i]));
    assert(other[i] == row);
    if i < place {
        assert(rows[i] == rows.take(place)[i]);
        assert(other[i] == other.take(place)[i]);
        assert(rows[i].id != rows[place].id);
    }
    if row != other[place] {
        assert(place < i);
        assert(is_row_of(providers, other[place]));
        assert(other[place].id != other[i].id);
        law_text_less_is_total(other[place].name, row.name);
    }
}

/// Providers with different names have only one listing, with one row for each of them.
pub proof fn law_listing_is_unique<P>(
    providers: Map<u128, ProviderView<P>>,
    rows: Seq<ProviderRow>,
    other: Seq<ProviderRow>,
)
    requires
        has_distinct_names(providers),
        is_listing_of(providers, rows),
        is_listing_of(providers, other),
    ensures
        rows == other,
        providers.dom().finite(),
        rows.len() == providers.dom().len(),
{
    lemma_listings_agree(providers, rows, other, rows.len() as int);
    lemma_listings_agree(providers, other, rows, other.len() as int);
    assert(rows =~= other) by {
        assert(rows.take(rows.len() as int) =~= rows);
        assert(other.take(other.len() as int) =~= other);
    }
    let ids = rows.map_values(|row: ProviderRow| row.id);
    assert(ids.no_duplicates());
    ids.unique_seq_to_set();
    assert(ids.to_set() =~= providers.dom()) by {
        assert forall|id: u128| ids.to_set().contains(id) <==> providers.dom().contains(id) by {
            if providers.contains_key(id) {
                let i = choose|i: int| 0 <= i < rows.len() && rows[i].id == id;
                assert(ids[i] == id);
            }
            if ids.contains(id) {
                let i = choose|i: int| 0 <= i < ids.len() && ids[i] == id;
                assert(is_row_of(providers, rows[i]));
            }
        }
    }
}

/// Listings of providers with different names begin with the same rows.
proof fn lemma_listings_agree<P>(
    providers: Map<u128, ProviderView<P>>,
    rows: Seq<ProviderRow>,
    other: Seq<ProviderRow>,
    count: int,
)
    requires
        has_distinct_names(providers),
        is_listing_of(providers, rows),
        is_listing_of(providers, other),
        0 <= count <= rows.len(),
    ensures
        count <= other.len(),
        rows.take(count) == other.take(count),
    decreases count,
{
    if count > 0 {
        let place = count - 1;
        lemma_listings_agree(providers, rows, other, place);
        lemma_listings_agree_at(providers, rows, other, place);
        lemma_listings_agree_at(providers, other, rows, place);
        if rows[place] != other[place] {
            law_text_less_is_transitive(rows[place].name, other[place].name, rows[place].name);
            law_text_less_is_irreflexive(rows[place].name);
        }
        assert(rows.take(count) =~= rows.take(place).push(rows[place]));
        assert(other.take(count) =~= other.take(place).push(other[place]));
    } else {
        assert(rows.take(0) =~= other.take(0));
    }
}

/// The pages of providers with different names are cut from one listing: pages that follow each
/// other neither overlap nor miss a provider, and a page is full as long as there are providers left
/// for it.
pub proof fn law_provider_pages_follow_each_other<P>(
    providers: Map<u128, ProviderView<P>>,
    offset: u32,
    limit: u32,
    next_limit: u32,
    page: Seq<ProviderRow>,
    next_page: Seq<ProviderRow>,
    both: Seq<ProviderRow>,
)
    requires
        has_distinct_names(providers),
        offset + limit <= u32::MAX,
        limit + next_limit <= u32::MAX,
        is_page_of(providers, (LayerProviderListingOptions { offset, limit }), page),
        is_page_of(
            providers,
            (LayerProviderListingOptions { offset: (offset + limit) as u32, limit: next_limit }),
            next_page,
        ),
        is_page_of(
            providers,
            (LayerProviderListingOptions { offset, limit: (limit + next_limit) as u32 }),
            both,
        ),
    ensures
        page + next_page == both,
        providers.dom().finite(),
        page.len() == if providers.dom().len() <= offset {
            0
        } else if providers.dom().len() - offset <= limit {
            providers.dom().len() - offset
        } else {
            limit as int
        },
{
    let first = LayerProviderListingOptions { offset, limit };
    let second = LayerProviderListingOptions {
        offset: (offset + limit) as u32,
        limit: next_limit,
    };
    let whole = LayerProviderListingOptions { offset, limit: (limit + next_limit) as u32 };
    let rows = choose|rows: Seq<ProviderRow>| #[trigger]
        is_listing_of(providers, rows) && page == window(
            rows,
            first.offset as int,
            first.limit as int,
        );
    let next_rows = choose|rows: Seq<ProviderRow>| #[trigger]
        is_listing_of(providers, rows) && next_page == window(
            rows,
            second.offset as int,
            second.limit as int,
        );
    let all_rows = choose|rows: Seq<ProviderRow>| #[trigger]
        is_listing_of(providers, rows) && both == window(
            rows,
            whole.offset as int,
            whole.limit as int,
        );
    law_listing_is_unique(providers, rows, next_rows);
    law_listing_is_unique(providers, rows, all_rows);
    law_pages_follow_each_other(rows, offset as int, limit as int, next_limit as int);
}

/// A page of the providers. Each row says what the provider with its identifier says of itself, names
/// ascend, and no provider is shown twice. A page that begins with the first provider and is long
/// enough shows all of them, and no page is longer than it may be.
pub proof fn law_pages_show_providers<P>(
    providers: Map<u128, ProviderView<P>>,
    options: LayerProviderListingOptions,
    page: Seq<ProviderRow>,
    id: u128,
)
    requires
        is_page_of(providers, options, page),
    ensures
        page.len() <= options.limit,
        forall|i: int|
            0 <= i < page.len() ==> {
                let row = #[trigger] page[i];
                &&& providers.contains_key(row.id)
                &&& row.name == providers[row.id].name
                &&& row.description == providers[row.id].type_label
            },
        forall|i: int, j: int|
            0 <= i < j < page.len() ==> (#[trigger] page[i]).id != (#[trigger] page[j]).id
                && !text_less(page[j].name, page[i].name),
        options.offset == 0 && page.len() < options.limit && providers.contains_key(id)
            ==> exists|i: int| 0 <= i < page.len() && (#[trigger] page[i]).id == id,
{
    let rows = choose|rows: Seq<ProviderRow>| #[trigger]
        is_listing_of(providers, rows) && page == window(
            rows,
            options.offset as int,
            options.limit as int,
        );
    let start: int = if options.offset <= rows.len() {
        options.offset as int
    } else {
        rows.len() as int
    };
    assert forall|i: int| 0 <= i < page.len() implies #[trigger] page[i] == rows[start + i] by {
    }
    assert forall|i: int, j: int| 0 <= i < j < page.len() implies (#[trigger] page[i]).id != (
    #[trigger] page[j]).id && !text_less(page[j].name, page[i].name) by {
        assert(rows[start + i].id != rows[start + j].id);
    }
    if options.offset == 0 && page.len() < options.limit && providers.contains_key(id) {
        assert(page =~= rows);
        let i = choose|i: int| 0 <= i < rows.len() && rows[i].id == id;
        assert(page[i].id == id);
    }
}

/// A page begins as far behind the first provider as it is asked to: the pages of one listing follow
/// each other.
pub proof fn law_pages_are_parts_of_the_listing<P>(
    providers: Map<u128, ProviderView<P>>,
    options: LayerProviderListingOptions,
    page: Seq<ProviderRow>,
    all: Seq<ProviderRow>,
    i: int,
)
    requires
        is_page_of(providers, options, page),
        is_page_of(providers, LayerProviderListingOptions { offset: 0, limit: u32::MAX }, all),
        all.len() < u32::MAX,
        forall|a: u128, b: u128|
            a != b && #[trigger] providers.contains_key(a) && #[trigger] providers.contains_key(b)
                ==> providers[a].name != providers[b].name,
        0 <= i,
    ensures
        i < page.len() ==> page[i] == all[options.offset + i],
        page.len() == if all.len() <= options.offset {
            0
        } else if options.offset + options.limit <= all.len() {
            options.limit as int
        } else {
            all.len() - options.offset
        },
{
    let rows = choose|rows: Seq<ProviderRow>| #[trigger]
        is_listing_of(providers, rows) && page == window(
            rows,
            options.offset as int,
            options.limit as int,
        );
    let other = choose|other: Seq<ProviderRow>| #[trigger]
        is_listing_of(providers, other) && all == window(other, 0, u32::MAX as int);
    assert(all =~= other);
    law_listing_is_unique(providers, rows, other);
}

/// What is known of providers is what they say of themselves.
pub proof fn law_providers_consist_of_what_they_say<P>(
    provider: ProviderEntry<P>,
    listing: Seq<LayerProviderListing>,
    i: int,
)
    requires
        0 <= i < listing.len(),
    ensures
        provider@.name == provider.name@,
        provider@.type_label == provider.type_label@,
        provider@.definition == provider.definition,
        rows_view(listing).len() == listing.len(),
        rows_view(listing)[i].id == listing[i].id.0,
        rows_view(listing)[i].name == listing[i].name@,
        rows_view(listing)[i].description == listing[i].description@,
{
}

} // verus!
