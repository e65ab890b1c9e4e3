use geoengine::edr::vector::VectorDataType;
use geoengine::meteosat::{channel_key, offset_key, satellite_key, slope_key};
use geoengine::migrations::Migration0009EdrProvider;
use geoengine::raster::{GridShape2D, PixelGrid};
use geoengine::util::metadata::{
    fetch_partial_metadata, DatasetMetadata, PartialVectorResultDescriptor,
};
use geoengine::util::string_map::StringMap;
use geoengine::util::text::{cut_at_last, is_less, replace_char, split};

#[test]
fn metadata_is_loaded_once() {
    let mut cache = DatasetMetadata::new();
    let descriptor = |data_type| PartialVectorResultDescriptor { data_type };

    // a failure is not remembered
    let failed = fetch_partial_metadata(&mut cache, "a".to_string(), || Err("broken"));
    assert_eq!(failed, Err("broken"));

    let first: Result<_, &str> = fetch_partial_metadata(&mut cache, "a".to_string(), || {
        Ok(descriptor(VectorDataType::MultiPoint))
    });
    assert_eq!(first, Ok(descriptor(VectorDataType::MultiPoint)));
    let again: Result<_, &str> =
        fetch_partial_metadata(&mut cache, "a".to_string(), || unreachable!());
    assert_eq!(again, first);

    let other: Result<_, &str> = fetch_partial_metadata(&mut cache, "b".to_string(), || {
        Ok(descriptor(VectorDataType::Data))
    });
    assert_eq!(other, Ok(descriptor(VectorDataType::Data)));
}

#[test]
fn maps_are_in_the_order_of_their_keys() {
    let mut map = StringMap::new();
    for (i, key) in ["b", "ä", "a", "B", "ab"].into_iter().enumerate() {
        map.insert(key.to_string(), i);
    }
    let keys: Vec<&String> = (0..map.len()).map(|i| map.key_at(i)).collect();
    assert_eq!(keys, vec!["B", "a", "ab", "b", "ä"]);
    assert_eq!(map.get("ab"), Some(&4));
    map.insert("ab".to_string(), 7);
    assert_eq!(map.len(), 5);
    assert_eq!(map.get("ab"), Some(&7));
    assert_eq!(map.remove("ab"), Some(7));
    assert_eq!(map.remove("ab"), None);
    assert!(!map.contains_key("ab"));
    assert!(map.contains_key("ä"));
}

#[test]
fn texts_are_ordered_as_strings_are() {
    let texts = ["", "a", "aa", "b", "B", "ä", "\u{ffff}", "\u{10000}"];
    for a in texts {
        for b in texts {
            assert_eq!(is_less(a, b), a < b);
        }
    }
}

#[test]
fn texts_are_split_and_cut() {
    assert_eq!(split("a!b!!c", '!'), vec!["a", "b", "", "c"]);
    assert_eq!(split("", '!'), vec![""]);
    assert_eq!(cut_at_last("a.b.c", '.'), "a.b");
    assert_eq!(cut_at_last("abc", '.'), "abc");
    assert_eq!(replace_char("1+2+3", '+', "%2B"), "1%2B2%2B3");
}

#[test]
fn pixels_are_row_major() {
    let grid = PixelGrid {
        shape: GridShape2D::new(2, 3),
        data: vec![Some(0), Some(1), Some(2), None, Some(4), Some(5)],
    };
    assert_eq!(grid.shape.number_of_elements(), 6);
    assert_eq!(grid.get_at_grid_index(0, 2), Some(&2));
    assert_eq!(grid.get_at_grid_index(1, 0), None);
    assert_eq!(grid.get_at_grid_index(1, 2), Some(&5));
    assert_eq!(grid.get_at_grid_index(2, 0), None);
    assert_eq!(grid.get_at_grid_index(0, 3), None);
}

#[test]
fn meteosat_properties_have_keys() {
    for (key, name) in [
        (slope_key(), "calibration_slope"),
        (offset_key(), "calibration_offset"),
        (channel_key(), "channel_number"),
        (satellite_key(), "satellite_number"),
    ] {
        assert_eq!(key.domain.as_deref(), Some("msg"));
        assert_eq!(key.key, name);
    }
}

#[test]
fn the_migration_follows_the_previous_version() {
    let migration = Migration0009EdrProvider;
    assert_eq!(
        migration.prev_version(),
        Some("0008_band_names".to_string())
    );
    assert_eq!(migration.version(), "0009_edr_provider");
    let statements: Vec<String> = migration
        .statements()
        .split(';')
        .map(|statement| statement.split_whitespace().collect::<Vec<_>>().join(" "))
        .collect();
    assert_eq!(
        statements,
        vec![
            "ALTER TYPE \"EdrVectorSpec\" RENAME ATTRIBUTE time TO start_time",
            "ALTER TYPE \"EdrVectorSpec\" ADD ATTRIBUTE end_time text",
            "",
        ]
    );
}
