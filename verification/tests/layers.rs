use geoengine::layers::in_memory::InMemoryDb;
use geoengine::layers::layer::{
    AddLayer, AddLayerCollection, CollectionItem, DataProviderId, LayerCollection,
    LayerCollectionId, LayerCollectionListOptions, LayerCollectionListing, LayerId, LayerListing,
    Property, ProviderLayerCollectionId, ProviderLayerId,
};
use geoengine::layers::provider_db::{
    HashMapLayerProviderDbBackend, LayerProviderDb, LayerProviderDbError,
    LayerProviderListingOptions, ProviderEntry,
};
use geoengine::layers::storage::{
    HashMapLayerDb, LayerCollectionProvider, LayerDb, LayerDbError,
    INTERNAL_LAYER_DB_ROOT_COLLECTION_ID, INTERNAL_PROVIDER_ID, UNSORTED_COLLECTION_ID,
};
use geoengine::util::string_map::StringMap;

/// A source of points stands for the workflow of a layer.
#[derive(Clone, Debug, PartialEq)]
struct MockPointSource {
    points: Vec<(f64, f64)>,
}

type Db = InMemoryDb<MockPointSource, (), ()>;

const ALL: LayerCollectionListOptions = LayerCollectionListOptions {
    offset: 0,
    limit: 20,
};

fn layer(name: &str) -> AddLayer<MockPointSource, ()> {
    AddLayer {
        name: name.to_string(),
        description: "description".to_string(),
        workflow: MockPointSource {
            points: vec![(1., 2.); 3],
        },
        symbology: None,
        metadata: StringMap::new(),
        properties: vec![],
    }
}

fn collection(name: &str) -> AddLayerCollection {
    AddLayerCollection {
        name: name.to_string(),
        description: "description".to_string(),
        properties: vec![],
    }
}

fn collection_listing(id: &LayerCollectionId, name: &str) -> CollectionItem {
    CollectionItem::Collection(LayerCollectionListing {
        id: ProviderLayerCollectionId {
            provider_id: DataProviderId(INTERNAL_PROVIDER_ID),
            collection_id: id.clone(),
        },
        name: name.to_string(),
        description: "description".to_string(),
        properties: vec![],
    })
}

fn layer_listing(id: &LayerId, name: &str, properties: Vec<Property>) -> CollectionItem {
    CollectionItem::Layer(LayerListing {
        id: ProviderLayerId {
            provider_id: DataProviderId(INTERNAL_PROVIDER_ID),
            layer_id: id.clone(),
        },
        name: name.to_string(),
        description: "description".to_string(),
        properties,
    })
}

fn listing(id: &LayerCollectionId, name: &str, items: Vec<CollectionItem>) -> LayerCollection {
    LayerCollection {
        id: ProviderLayerCollectionId {
            provider_id: DataProviderId(INTERNAL_PROVIDER_ID),
            collection_id: id.clone(),
        },
        name: name.to_string(),
        description: "description".to_string(),
        items,
        entry_label: None,
        properties: vec![],
    }
}

fn names(collection: &LayerCollection) -> Vec<String> {
    collection
        .items
        .iter()
        .map(|item| match item {
            CollectionItem::Collection(listing) => listing.name.clone(),
            CollectionItem::Layer(listing) => listing.name.clone(),
        })
        .collect()
}

#[test]
fn it_stores_layers() {
    let mut db: Db = InMemoryDb::default();

    let mut metadata = StringMap::new();
    metadata.insert("meta".to_string(), "datum".to_string());
    let layer = AddLayer {
        metadata,
        properties: vec![Property("proper".to_string(), "tee".to_string())],
        ..layer("layer")
    };

    let root_collection = db.get_root_layer_collection_id().unwrap();

    let l_id = db.add_layer(layer, &root_collection).unwrap();

    let top_c_id = db
        .add_layer_collection(collection("top collection"), &root_collection)
        .unwrap();
    db.add_layer_to_collection(&l_id, &top_c_id).unwrap();

    let empty_c_id = db
        .add_layer_collection(collection("empty collection"), &top_c_id)
        .unwrap();

    let items = db.load_layer_collection(&top_c_id, ALL).unwrap();

    assert_eq!(
        items,
        listing(
            &top_c_id,
            "top collection",
            vec![
                collection_listing(&empty_c_id, "empty collection"),
                layer_listing(
                    &l_id,
                    "layer",
                    vec![Property("proper".to_string(), "tee".to_string())]
                ),
            ]
        )
    );
}

#[test]
fn it_removes_collections() {
    let mut db: Db = InMemoryDb::default();

    let root_collection = db.get_root_layer_collection_id().unwrap();

    let top_c_id = db
        .add_layer_collection(collection("top collection"), &root_collection)
        .unwrap();

    let l_id = db.add_layer(layer("layer"), &top_c_id).unwrap();

    let empty_c_id = db
        .add_layer_collection(collection("empty collection"), &top_c_id)
        .unwrap();

    let items = db.load_layer_collection(&top_c_id, ALL).unwrap();

    assert_eq!(
        items,
        listing(
            &top_c_id,
            "top collection",
            vec![
                collection_listing(&empty_c_id, "empty collection"),
                layer_listing(&l_id, "layer", vec![]),
            ]
        )
    );

    // remove empty collection
    db.remove_layer_collection(&empty_c_id).unwrap();

    let items = db.load_layer_collection(&top_c_id, ALL).unwrap();

    assert_eq!(
        items,
        listing(
            &top_c_id,
            "top collection",
            vec![layer_listing(&l_id, "layer", vec![])]
        )
    );

    // remove top (not root) collection
    db.remove_layer_collection(&top_c_id).unwrap();

    db.load_layer_collection(&top_c_id, ALL).unwrap_err();

    // should be deleted automatically
    assert!(db.load_layer(&l_id).is_err());

    // it is not allowed to remove the root collection
    db.remove_layer_collection(&root_collection).unwrap_err();
    db.load_layer_collection(&root_collection, ALL).unwrap();
}

#[test]
fn it_removes_collections_from_collections() {
    let mut db: Db = InMemoryDb::default();

    let root_collection_id = db.get_root_layer_collection_id().unwrap();

    let mid_collection_id = db
        .add_layer_collection(collection("mid collection"), &root_collection_id)
        .unwrap();

    let bottom_collection_id = db
        .add_layer_collection(collection("bottom collection"), &mid_collection_id)
        .unwrap();

    let layer_id = db.add_layer(layer("layer"), &mid_collection_id).unwrap();

    // removing the mid collection…
    db.remove_layer_collection_from_parent(&mid_collection_id, &root_collection_id)
        .unwrap();

    // …should remove itself
    db.load_layer_collection(&mid_collection_id, ALL).unwrap_err();

    // …should remove the bottom collection
    db.load_layer_collection(&bottom_collection_id, ALL).unwrap_err();

    // … and should remove the layer of the bottom collection
    assert!(db.load_layer(&layer_id).is_err());

    // the root collection is still there
    db.load_layer_collection(&root_collection_id, ALL).unwrap();
}

#[test]
fn it_removes_layers_from_collections() {
    let mut db: Db = InMemoryDb::default();

    let root_collection = db.get_root_layer_collection_id().unwrap();

    let another_collection = db
        .add_layer_collection(collection("top collection"), &root_collection)
        .unwrap();

    let layer_in_one_collection = db.add_layer(layer("layer 1"), &another_collection).unwrap();

    let layer_in_two_collections = db.add_layer(layer("layer 2"), &another_collection).unwrap();

    db.add_layer_to_collection(&layer_in_two_collections, &root_collection)
        .unwrap();

    // remove first layer --> should be deleted entirely

    db.remove_layer_from_collection(&layer_in_one_collection, &another_collection)
        .unwrap();

    let number_of_layer_in_collection = db
        .load_layer_collection(&another_collection, ALL)
        .unwrap()
        .items
        .len();
    assert_eq!(
        number_of_layer_in_collection,
        1 /* only the other collection should be here */
    );

    assert!(db.load_layer(&layer_in_one_collection).is_err());

    // remove second layer --> should only be gone in collection

    db.remove_layer_from_collection(&layer_in_two_collections, &another_collection)
        .unwrap();

    let number_of_layer_in_collection = db
        .load_layer_collection(&another_collection, ALL)
        .unwrap()
        .items
        .len();
    assert_eq!(
        number_of_layer_in_collection,
        0 /* both layers were deleted */
    );

    assert!(db.load_layer(&layer_in_two_collections).is_ok());
}

#[test]
fn test_missing_layer_dataset_in_collection_listing() {
    let mut db: HashMapLayerDb<MockPointSource, ()> = HashMapLayerDb::default();

    let root_collection_id = db.get_root_layer_collection_id().unwrap();

    let top_collection_id = db
        .add_layer_collection(collection("top collection"), &root_collection_id)
        .unwrap();

    let faux_layer = LayerId("faux".to_string());

    // this should fail
    db.add_layer_to_collection(&faux_layer, &top_collection_id)
        .unwrap_err();

    let root_collection_layers = db.load_layer_collection(&top_collection_id, ALL).unwrap();

    assert_eq!(
        root_collection_layers,
        LayerCollection {
            id: ProviderLayerCollectionId {
                provider_id: DataProviderId(
                    uuid::Uuid::parse_str("ce5e84db-cbf9-48a2-9a32-d4b7cc56ea74")
                        .unwrap()
                        .as_u128()
                ),
                collection_id: top_collection_id.clone(),
            },
            name: "top collection".to_string(),
            description: "description".to_string(),
            items: vec![],
            entry_label: None,
            properties: vec![],
        }
    );
}

#[test]
fn a_new_database_has_a_root_and_an_unsorted_collection() {
    let db: Db = InMemoryDb::default();
    let root = db.get_root_layer_collection_id().unwrap();
    assert_eq!(root.0, "05102bb3-a855-4a37-8a8a-30026a91fef1");
    assert_eq!(
        root.0,
        uuid::Uuid::from_u128(INTERNAL_LAYER_DB_ROOT_COLLECTION_ID).to_string()
    );

    let listed = db.load_layer_collection(&root, ALL).unwrap();
    assert_eq!(listed.name, "LayerDB");
    assert_eq!(names(&listed), vec!["Unsorted".to_string()]);
    match &listed.items[0] {
        CollectionItem::Collection(unsorted) => assert_eq!(
            unsorted.id.collection_id.0,
            uuid::Uuid::from_u128(UNSORTED_COLLECTION_ID).to_string()
        ),
        CollectionItem::Layer(_) => unreachable!(),
    }
}

#[test]
fn added_layers_get_random_uuids_and_are_found() {
    let mut db: Db = InMemoryDb::default();
    let root = db.get_root_layer_collection_id().unwrap();
    let first = db.add_layer(layer("first"), &root).unwrap();
    let second = db.add_layer(layer("second"), &root).unwrap();
    assert_ne!(first, second);
    for id in [&first, &second] {
        let uuid = uuid::Uuid::parse_str(&id.0).unwrap();
        assert_eq!(uuid.get_version_num(), 4);
        assert_eq!(uuid.get_variant(), uuid::Variant::RFC4122);
        assert_eq!(uuid.to_string(), id.0);
    }

    let loaded = match db.load_layer(&first) {
        Ok(loaded) => loaded,
        Err(_) => unreachable!(),
    };
    assert_eq!(loaded.name, "first");
    assert_eq!(loaded.id.layer_id, first);
    assert_eq!(loaded.id.provider_id, DataProviderId(INTERNAL_PROVIDER_ID));
    assert_eq!(loaded.workflow.points, vec![(1., 2.); 3]);
}

#[test]
fn a_layer_can_be_added_with_a_fixed_id() {
    let mut db: Db = InMemoryDb::default();
    let root = db.get_root_layer_collection_id().unwrap();
    let id = LayerId("my layer".to_string());
    db.add_layer_with_id(&id, layer("layer"), &root).unwrap();
    assert!(db.load_layer(&id).is_ok());

    let collection_id = LayerCollectionId("my collection".to_string());
    db.add_layer_collection_with_id(&collection_id, collection("collection"), &root)
        .unwrap();
    assert_eq!(
        db.load_layer_collection(&collection_id, ALL).unwrap(),
        listing(&collection_id, "collection", vec![])
    );
    assert_eq!(
        names(&db.load_layer_collection(&root, ALL).unwrap()),
        vec!["Unsorted", "collection", "layer"]
    );
}

#[test]
fn collections_are_listed_before_layers_and_both_by_name() {
    let mut db: Db = InMemoryDb::default();
    let root = db.get_root_layer_collection_id().unwrap();
    let top = db.add_layer_collection(collection("top"), &root).unwrap();
    for name in ["c", "a", "b"] {
        db.add_layer(layer(name), &top).unwrap();
    }
    for name in ["z", "y"] {
        db.add_layer_collection(collection(name), &top).unwrap();
    }
    assert_eq!(
        names(&db.load_layer_collection(&top, ALL).unwrap()),
        vec!["y", "z", "a", "b", "c"]
    );
}

#[test]
fn pages_follow_each_other() {
    let mut db: Db = InMemoryDb::default();
    let root = db.get_root_layer_collection_id().unwrap();
    let top = db.add_layer_collection(collection("top"), &root).unwrap();
    for name in ["a", "b", "c", "d", "e"] {
        db.add_layer(layer(name), &top).unwrap();
    }
    let page = |offset: u32, limit: u32| {
        names(
            &db.load_layer_collection(&top, LayerCollectionListOptions { offset, limit })
                .unwrap(),
        )
    };
    let whole = page(0, 5);
    assert_eq!(whole.len(), 5);
    assert_eq!([page(0, 2), page(2, 3)].concat(), whole);
    assert_eq!(page(4, 20).len(), 1);
    assert!(page(5, 20).is_empty());
    assert!(page(u32::MAX, u32::MAX).is_empty());
    assert!(page(0, 0).is_empty());
}

#[test]
fn collections_with_another_parent_stay() {
    let mut db: Db = InMemoryDb::default();
    let root = db.get_root_layer_collection_id().unwrap();
    let first = db.add_layer_collection(collection("first"), &root).unwrap();
    let second = db.add_layer_collection(collection("second"), &root).unwrap();
    let shared = db.add_layer_collection(collection("shared"), &first).unwrap();
    db.add_collection_to_parent(&shared, &second).unwrap();
    let kept = db.add_layer(layer("kept"), &shared).unwrap();
    let lost = db.add_layer(layer("lost"), &first).unwrap();

    db.remove_layer_collection(&first).unwrap();

    assert!(db.load_layer_collection(&first, ALL).is_err());
    assert!(db.load_layer(&lost).is_err());
    assert!(db.load_layer(&kept).is_ok());
    assert_eq!(
        db.load_layer_collection(&shared, ALL).unwrap(),
        listing(&shared, "shared", vec![layer_listing(&kept, "kept", vec![])])
    );
    assert_eq!(
        names(&db.load_layer_collection(&second, ALL).unwrap()),
        vec!["shared"]
    );
    assert_eq!(
        names(&db.load_layer_collection(&root, ALL).unwrap()),
        vec!["Unsorted", "second"]
    );
}

#[test]
fn nothing_is_removed_from_a_database_by_a_rejected_request() {
    let mut db: Db = InMemoryDb::default();
    let root = db.get_root_layer_collection_id().unwrap();
    let top = db.add_layer_collection(collection("top"), &root).unwrap();
    let id = db.add_layer(layer("layer"), &top).unwrap();
    let missing_layer = LayerId("missing".to_string());
    let missing = LayerCollectionId("missing".to_string());

    assert_eq!(
        db.remove_layer_collection(&root),
        Err(LayerDbError::CannotRemoveRootCollection)
    );
    assert_eq!(
        db.remove_layer_from_collection(&missing_layer, &top),
        Err(LayerDbError::NoLayerForGivenIdInCollection {
            layer: missing_layer.clone(),
            collection: top.clone(),
        })
    );
    assert_eq!(
        db.remove_layer_from_collection(&id, &missing),
        Err(LayerDbError::NoLayerCollectionForGivenId {
            id: missing.clone()
        })
    );
    assert_eq!(
        db.add_layer_to_collection(&missing_layer, &top),
        Err(LayerDbError::NoLayerForGivenId {
            id: missing_layer.clone()
        })
    );
    assert!(db.remove_layer_collection_from_parent(&missing, &root).is_err());
    assert_eq!(
        db.load_layer_collection(&missing, ALL),
        Err(LayerDbError::NoLayerCollectionForGivenId { id: missing })
    );
    match db.load_layer(&missing_layer) {
        Err(error) => assert_eq!(error, LayerDbError::NoLayerForGivenId { id: missing_layer }),
        Ok(_) => unreachable!(),
    }

    assert!(db.load_layer(&id).is_ok());
    assert_eq!(
        names(&db.load_layer_collection(&root, ALL).unwrap()),
        vec!["Unsorted", "top"]
    );
}

#[test]
fn removing_what_is_not_there_changes_nothing() {
    let mut db: Db = InMemoryDb::default();
    let root = db.get_root_layer_collection_id().unwrap();
    let top = db.add_layer_collection(collection("top"), &root).unwrap();
    let missing = LayerCollectionId("missing".to_string());

    assert_eq!(db.remove_layer_collection(&missing), Ok(()));

    assert!(db.load_layer_collection(&top, ALL).is_ok());
    assert_eq!(
        names(&db.load_layer_collection(&root, ALL).unwrap()),
        vec!["Unsorted", "top"]
    );
}

#[test]
fn the_root_collection_cannot_be_removed_from_a_parent() {
    let mut db: Db = InMemoryDb::default();
    let root = db.get_root_layer_collection_id().unwrap();
    let top = db.add_layer_collection(collection("top"), &root).unwrap();
    db.add_collection_to_parent(&root, &top).unwrap();

    assert_eq!(
        db.remove_layer_collection_from_parent(&root, &top),
        Err(LayerDbError::CannotRemoveRootCollection)
    );
    assert!(db.load_layer_collection(&root, ALL).is_ok());
}

#[test]
fn what_does_not_exist_cannot_be_listed() {
    let mut db: HashMapLayerDb<MockPointSource, ()> = HashMapLayerDb::default();
    let root = db.get_root_layer_collection_id().unwrap();
    let top = db.add_layer_collection(collection("top"), &root).unwrap();
    db.add_layer(layer("layer"), &top).unwrap();
    assert!(db.can_list(&root, ALL));
    assert!(db.can_list(&top, ALL));

    let missing = LayerCollectionId("missing".to_string());
    db.add_collection_to_parent(&missing, &root).unwrap();
    assert!(!db.can_list(&root, ALL));
    // the missing collection comes last
    let first_page = LayerCollectionListOptions {
        offset: 0,
        limit: 2,
    };
    assert!(db.can_list(&root, first_page));
    assert_eq!(
        names(&db.load_layer_collection(&root, first_page).unwrap()).len(),
        2
    );
    // listing it is an error that is reported
    assert!(db.can_list(&missing, ALL));
    assert_eq!(
        db.load_layer_collection(&missing, ALL),
        Err(LayerDbError::NoLayerCollectionForGivenId { id: missing })
    );
}

fn provider(id: u128, name: &str, definition: &str) -> ProviderEntry<String> {
    ProviderEntry {
        id: DataProviderId(id),
        name: name.to_string(),
        type_label: "Environmental Data Retrieval".to_string(),
        definition: definition.to_string(),
    }
}

#[test]
fn providers_are_listed_by_name() {
    let mut db: HashMapLayerProviderDbBackend<String> = HashMapLayerProviderDbBackend::default();
    assert_eq!(
        db.add_layer_provider(provider(2, "b", "second")),
        Ok(DataProviderId(2))
    );
    db.add_layer_provider(provider(3, "c", "third")).unwrap();
    db.add_layer_provider(provider(1, "a", "first")).unwrap();

    let list = |offset: u32, limit: u32| -> Vec<(u128, String, String)> {
        db.list_layer_providers(LayerProviderListingOptions { offset, limit })
            .unwrap()
            .into_iter()
            .map(|listing| (listing.id.0, listing.name, listing.description))
            .collect()
    };
    let row = |id: u128, name: &str| {
        (
            id,
            name.to_string(),
            "Environmental Data Retrieval".to_string(),
        )
    };
    assert_eq!(list(0, 10), vec![row(1, "a"), row(2, "b"), row(3, "c")]);
    assert_eq!(list(1, 1), vec![row(2, "b")]);
    assert!(list(3, 10).is_empty());

    assert_eq!(
        db.load_layer_provider(DataProviderId(3)),
        Ok("third".to_string())
    );
    assert_eq!(
        db.load_layer_provider(DataProviderId(4)),
        Err(LayerProviderDbError::UnknownProviderId)
    );
}

#[test]
fn a_provider_replaces_another_one_with_the_same_id() {
    let mut db: InMemoryDb<(), (), String> = InMemoryDb::default();
    db.add_layer_provider(provider(1, "a", "old")).unwrap();
    db.add_layer_provider(provider(1, "b", "new")).unwrap();
    assert_eq!(
        db.load_layer_provider(DataProviderId(1)),
        Ok("new".to_string())
    );
    let listed = db
        .list_layer_providers(LayerProviderListingOptions {
            offset: 0,
            limit: 10,
        })
        .unwrap();
    assert_eq!(listed.len(), 1);
    assert_eq!(listed[0].name, "b");
}

#[test]
fn pages_of_providers_follow_each_other() {
    let mut db: InMemoryDb<(), (), String> = InMemoryDb::default();
    for (id, name) in [(4, "d"), (2, "b"), (5, "e"), (1, "a"), (3, "c")] {
        db.add_layer_provider(provider(id, name, name)).unwrap();
    }
    let list = |offset: u32, limit: u32| -> Vec<u128> {
        db.list_layer_providers(LayerProviderListingOptions { offset, limit })
            .unwrap()
            .into_iter()
            .map(|listing| listing.id.0)
            .collect()
    };
    assert_eq!([list(1, 2), list(3, 1)].concat(), list(1, 3));
    assert_eq!(list(1, 3), vec![2, 3, 4]);
    assert_eq!([list(0, 4), list(4, 4)].concat(), vec![1, 2, 3, 4, 5]);
}

#[test]
fn layers_and_providers_do_not_touch_each_other() {
    let mut db: InMemoryDb<MockPointSource, (), String> = InMemoryDb::default();
    let root = db.get_root_layer_collection_id().unwrap();
    db.add_layer_provider(provider(1, "a", "definition")).unwrap();

    let top = db.add_layer_collection(collection("top"), &root).unwrap();
    let id = db.add_layer(layer("layer"), &top).unwrap();
    db.add_layer_to_collection(&id, &root).unwrap();
    db.remove_layer_from_collection(&id, &root).unwrap();
    assert_eq!(
        db.load_layer_provider(DataProviderId(1)),
        Ok("definition".to_string())
    );

    db.add_layer_provider(provider(2, "b", "other")).unwrap();
    assert_eq!(db.load_layer(&id).unwrap().name, "layer");

    db.remove_layer_collection(&top).unwrap();
    assert!(db.load_layer(&id).is_err());
    assert_eq!(
        db.load_layer_provider(DataProviderId(1)),
        Ok("definition".to_string())
    );
}

#[test]
fn a_loaded_layer_is_the_one_that_was_added() {
    let mut db: Db = InMemoryDb::default();
    let root = db.get_root_layer_collection_id().unwrap();
    let mut metadata = StringMap::new();
    metadata.insert("key".to_string(), "value".to_string());
    let added = AddLayer {
        symbology: Some(()),
        metadata,
        properties: vec![Property("name".to_string(), "text".to_string())],
        ..layer("layer")
    };
    let id = db.add_layer(added, &root).unwrap();
    // other changes do not matter
    let top = db.add_layer_collection(collection("top"), &root).unwrap();
    db.add_layer(layer("other"), &top).unwrap();
    db.remove_layer_collection(&top).unwrap();

    let loaded = db.load_layer(&id).unwrap();
    assert_eq!(loaded.id.provider_id, DataProviderId(INTERNAL_PROVIDER_ID));
    assert_eq!(loaded.id.layer_id, id);
    assert_eq!(loaded.name, "layer");
    assert_eq!(loaded.description, "description");
    assert_eq!(loaded.workflow, layer("layer").workflow);
    assert_eq!(loaded.symbology, Some(()));
    assert_eq!(loaded.metadata.get("key"), Some(&"value".to_string()));
    assert_eq!(
        loaded.properties,
        vec![Property("name".to_string(), "text".to_string())]
    );

    let missing = LayerId("missing".to_string());
    match db.load_layer(&missing) {
        Err(error) => assert_eq!(error, LayerDbError::NoLayerForGivenId { id: missing }),
        Ok(_) => unreachable!(),
    }
}
