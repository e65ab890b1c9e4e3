use std::marker::PhantomData;
use std::sync::Arc;

use geoengine::cache::container::{
    update_stored_query, CacheBackendElementExt, CachedTiles, LandingZoneQueryTiles,
    RasterQueryRectangle,
};
use geoengine::cache::error::CacheError;
use geoengine::cache::grid::{
    CompressedGridOrEmpty, CompressedMaskedGrid, EmptyGrid, Grid, GridOrEmpty, MaskedGrid,
};
use geoengine::cache::lz4::{can_compress_len, do_lengths_fit, MAX_RUN};
use geoengine::cache::pixel::{bytes_to_data, data_to_bytes};
use geoengine::cache::stream::{CacheTileStream, CacheTileStreamInner, TileStreamAction};
use geoengine::cache::tile::{
    can_be_restored, can_be_stored, from_any_element_ref, from_stored_element_ref,
    into_stored_element, BaseTile, CompressedRasterTile2D, CompressedRasterTileExt, RasterTile2D,
};
use geoengine::primitives::{F32Bits, F64Bits};
use geoengine::raster::GridShape2D;

/// The name of a tile stands for everything but its pixels.
type Meta = String;

fn grid<T>(rows: usize, columns: usize, data: Vec<T>, mask: Vec<bool>) -> GridOrEmpty<GridShape2D, T> {
    let shape = GridShape2D::new(rows, columns);
    GridOrEmpty::Grid(MaskedGrid {
        inner_grid: Grid { shape, data },
        validity_mask: Grid { shape, data: mask },
    })
}

fn empty<T>(rows: usize, columns: usize) -> GridOrEmpty<GridShape2D, T> {
    GridOrEmpty::Empty(EmptyGrid {
        shape: GridShape2D::new(rows, columns),
        type_marker: PhantomData,
    })
}

fn tile<T>(name: &str, grid_array: GridOrEmpty<GridShape2D, T>) -> RasterTile2D<T, Meta> {
    BaseTile {
        grid_array,
        meta: name.to_string(),
    }
}

fn stored(name: &str) -> CompressedRasterTile2D<u8, Meta> {
    into_stored_element(tile(name, empty(2, 2)))
}

fn parts<T: Clone>(grid: &GridOrEmpty<GridShape2D, T>) -> (GridShape2D, Option<(Vec<T>, Vec<bool>)>) {
    match grid {
        GridOrEmpty::Grid(grid) => (
            *grid.shape(),
            Some((
                grid.inner_grid.data.clone(),
                grid.validity_mask.data.clone(),
            )),
        ),
        GridOrEmpty::Empty(empty) => (empty.shape, None),
    }
}

#[test]
fn stored_tiles_are_restored() {
    let data: Vec<u16> = (0..10_000).map(|i| i % 7).collect();
    let mask: Vec<bool> = (0..10_000).map(|i| i % 3 == 0).collect();
    let stored = into_stored_element(tile("t", grid(100, 100, data.clone(), mask.clone())));
    let restored = from_stored_element_ref(&stored).unwrap();
    assert_eq!(restored.meta, "t");
    assert_eq!(
        parts(&restored.grid_array),
        (GridShape2D::new(100, 100), Some((data, mask)))
    );
}

#[test]
fn all_pixel_types_are_restored() {
    fn check<T>(data: Vec<T>)
    where
        T: geoengine::cache::pixel::PixelBytes + PartialEq + std::fmt::Debug,
    {
        let mask = vec![true, false, true, true];
        let stored = into_stored_element(tile("t", grid(2, 2, data.clone(), mask.clone())));
        let restored = from_stored_element_ref(&stored).unwrap();
        assert_eq!(
            parts(&restored.grid_array),
            (GridShape2D::new(2, 2), Some((data, mask)))
        );
    }
    check::<u8>(vec![0, 1, 2, u8::MAX]);
    check::<u16>(vec![0, 1, 2, u16::MAX]);
    check::<u32>(vec![0, 1, 2, u32::MAX]);
    check::<u64>(vec![0, 1, 2, u64::MAX]);
    check::<i8>(vec![i8::MIN, -1, 0, i8::MAX]);
    check::<i16>(vec![i16::MIN, -1, 0, i16::MAX]);
    check::<i32>(vec![i32::MIN, -1, 0, i32::MAX]);
    check::<i64>(vec![i64::MIN, -1, 0, i64::MAX]);
    check::<F32Bits>(
        [0., -1.5, f32::INFINITY, f32::NAN]
            .iter()
            .map(|value| F32Bits {
                bits: value.to_bits(),
            })
            .collect(),
    );
    check::<F64Bits>(
        [0., -1.5, f64::INFINITY, f64::NAN]
            .iter()
            .map(|value| F64Bits {
                bits: value.to_bits(),
            })
            .collect(),
    );
}

#[test]
fn empty_tiles_stay_empty() {
    let stored: CompressedRasterTile2D<u8, Meta> = into_stored_element(tile("t", empty(3, 4)));
    assert!(stored.grid_array.is_empty());
    assert_eq!(stored.grid_array.compressed_len(), 0);
    assert_eq!(stored.grid_array.axis_size(), [3, 4]);
    assert_eq!(stored.grid_array.number_of_elements(), 12);
    let restored = from_stored_element_ref(&stored).unwrap();
    assert_eq!(
        parts(&restored.grid_array),
        (GridShape2D::new(3, 4), None::<(Vec<u8>, Vec<bool>)>)
    );
}

#[test]
fn tiles_are_compressed() {
    let stored = into_stored_element(tile(
        "t",
        grid(100, 100, vec![7_u32; 10_000], vec![true; 10_000]),
    ));
    assert!(!stored.grid_array.is_empty());
    let data_len = stored.grid_array.compressed_data_len();
    let mask_len = stored.grid_array.compressed_mask_len();
    assert!(0 < data_len && data_len < 40_000);
    assert!(0 < mask_len && mask_len < 10_000);
    assert_eq!(stored.grid_array.compressed_len(), data_len + mask_len);
    assert_eq!(stored.compressed_data_len(), data_len);
    match &stored.grid_array {
        CompressedGridOrEmpty::Compressed(grid) => {
            assert_eq!(grid.compressed_data_slice().len(), data_len);
            assert_eq!(grid.compressed_mask_slice().len(), mask_len);
            assert_eq!(
                lz4_flex::block::decompress(grid.compressed_mask_slice(), 10_000).unwrap(),
                vec![1; 10_000]
            );
        }
        CompressedGridOrEmpty::Empty(_) => unreachable!(),
    }
}

#[test]
fn broken_blocks_are_rejected() {
    let broken: CompressedRasterTile2D<u8, Meta> = BaseTile {
        grid_array: CompressedGridOrEmpty::Compressed(CompressedMaskedGrid::new(
            GridShape2D::new(2, 2),
            vec![0xf0, 0x01],
            vec![],
        )),
        meta: "t".to_string(),
    };
    assert!(matches!(
        from_stored_element_ref(&broken),
        Err(CacheError::CouldNotDecompressElement { .. })
    ));
}

#[test]
fn values_are_little_endian() {
    assert_eq!(data_to_bytes(&vec![0x0102_u16, 3]), vec![2, 1, 3, 0]);
    assert_eq!(data_to_bytes(&vec![true, false]), vec![1, 0]);
    assert_eq!(bytes_to_data::<i16>(&[0xff, 0xff, 1, 0]), vec![-1, 1]);
    // bytes that do not make up a value are left over
    assert_eq!(bytes_to_data::<u32>(&[1, 0, 0, 0, 9]), vec![1]);
}

#[test]
fn grids_can_be_compressed_in_other_ways() {
    let original = grid(1, 2, vec![1_u8, 2], vec![true, false]);
    let reverse = |bytes: &[u8]| -> Vec<u8> { bytes.iter().rev().copied().collect() };
    let compressed = CompressedGridOrEmpty::compress_grid(&original, reverse);
    match &compressed {
        CompressedGridOrEmpty::Compressed(grid) => {
            assert_eq!(grid.compressed_data_slice(), &[2, 1]);
            assert_eq!(grid.compressed_mask_slice(), &[0, 1]);
            assert_eq!(grid.shape(), &GridShape2D::new(1, 2));
        }
        CompressedGridOrEmpty::Empty(_) => unreachable!(),
    }
    let restored = compressed
        .decompress_grid(|bytes: &[u8]| -> Result<Vec<u8>, CacheError> { Ok(reverse(bytes)) })
        .unwrap();
    assert_eq!(parts(&restored), parts(&original));
    assert!(matches!(
        compressed.decompress_grid(|_bytes: &[u8]| -> Result<Vec<u8>, CacheError> {
            Err(CacheError::InvalidTypeForInsertion)
        }),
        Err(CacheError::InvalidTypeForInsertion)
    ));
}

#[test]
fn tiles_move_from_the_landing_zone_into_the_cache() {
    let mut zone = LandingZoneQueryTiles::create_empty::<u8>();
    assert!(zone.is_empty());
    zone.insert_element(stored("first")).unwrap();
    zone.insert_element(stored("second")).unwrap();
    assert_eq!(zone.len(), 2);
    assert!(!zone.is_empty());

    let cached = CachedTiles::from(zone);
    let tiles = u8::results_arc(&cached).unwrap();
    let names: Vec<&str> = tiles.iter().map(|tile| tile.meta.as_str()).collect();
    assert_eq!(names, vec!["first", "second"]);
    // both own the same tiles
    match &cached {
        CachedTiles::U8(own) => assert!(Arc::ptr_eq(own, &tiles)),
        _ => unreachable!(),
    }
    assert!(u16::results_arc(&cached).is_none());
}

#[test]
fn a_landing_zone_rejects_tiles_of_another_type() {
    let mut zone: LandingZoneQueryTiles<Meta> = LandingZoneQueryTiles::create_empty::<F64Bits>();
    assert!(matches!(
        zone.insert_element(stored("tile")),
        Err(CacheError::InvalidTypeForInsertion)
    ));
    assert!(zone.is_empty());
}

#[test]
fn a_container_is_expired_if_one_of_its_tiles_is() {
    let cached = CachedTiles::U8(Arc::new(vec![stored("fresh"), stored("old")]));
    assert!(cached.is_expired(|meta: &Meta| meta == "old"));
    assert!(!cached.is_expired(|meta: &Meta| meta == "older"));
    let none: CachedTiles<Meta> = CachedTiles::I64(Arc::new(vec![]));
    assert!(!none.is_expired(|_meta: &Meta| true));
}

#[test]
fn stored_queries_cover_their_tiles() {
    let extend = |bounds: &i32, tile: &i32| *bounds.max(tile);
    let unite = |time: &(i32, i32), other: &(i32, i32)| {
        if time.1 < other.0 || other.1 < time.0 {
            Err(())
        } else {
            Ok((time.0.min(other.0), time.1.max(other.1)))
        }
    };
    let mut query = RasterQueryRectangle {
        spatial_bounds: 1,
        time_interval: (0, 5),
    };
    assert!(update_stored_query(&mut query, &3, &(4, 8), extend, unite).is_ok());
    assert_eq!(query.spatial_bounds, 3);
    assert_eq!(query.time_interval, (0, 8));

    // the bounds are extended even if the times have nothing in common
    assert!(matches!(
        update_stored_query(&mut query, &7, &(9, 10), extend, unite),
        Err(CacheError::ElementAndQueryDoNotIntersect)
    ));
    assert_eq!(query.spatial_bounds, 7);
    assert_eq!(query.time_interval, (0, 8));
}

fn in_bounds(meta: &Meta, query: &char) -> bool {
    meta.starts_with(*query)
}

fn in_time(meta: &Meta, _query: &char) -> bool {
    !meta.ends_with("late")
}

#[test]
fn a_stream_finds_the_first_tile_of_its_query() {
    let data = Arc::new(vec![stored("a"), stored("b late"), stored("b"), stored("b 2")]);
    let inner = CacheTileStreamInner::new(Arc::clone(&data), 'b');
    assert_eq!(inner.len(), 4);
    assert_eq!(inner.remaining(), 4);
    assert!(!inner.terminated());
    assert_eq!(inner.next_idx(in_bounds, in_time), Some(2));
    assert!(Arc::ptr_eq(&inner.data_arc(), &data));

    let inner = CacheTileStreamInner::new(data, 'c');
    assert_eq!(inner.next_idx(in_bounds, in_time), None);
}

#[test]
fn a_stream_decompresses_one_tile_after_the_other() {
    let data = Arc::new(vec![
        stored("a"),
        stored("b"),
        stored("b late"),
        stored("b 2"),
    ]);
    let mut stream = CacheTileStream::new(data, 'b');
    assert_eq!(stream.element_count(), 4);
    assert_eq!(stream.size_hint(), (1, Some(4)));
    assert_eq!(
        stream.poll_next(in_bounds, in_time),
        TileStreamAction::StartDecompression(1)
    );
    assert_eq!(
        stream.poll_next(in_bounds, in_time),
        TileStreamAction::PollDecompression
    );
    // the tile that is decompressed is still to come
    assert_eq!(stream.size_hint(), (1, Some(4)));
    let tile = from_stored_element_ref(&stream.data_arc()[1]);
    let item = stream.check_decompress_future_res(Ok(tile)).unwrap();
    assert_eq!(item.meta, "b");
    assert!(!stream.is_terminated());
    assert_eq!(stream.size_hint(), (1, Some(2)));

    assert_eq!(
        stream.poll_next(in_bounds, in_time),
        TileStreamAction::StartDecompression(3)
    );
    assert!(!stream.is_terminated());
    let tile = from_stored_element_ref(&stream.data_arc()[3]);
    let item = stream.check_decompress_future_res(Ok(tile)).unwrap();
    assert_eq!(item.meta, "b 2");
    assert!(stream.is_terminated());
    assert_eq!(stream.size_hint(), (0, Some(0)));
    for _ in 0..2 {
        assert_eq!(
            stream.poll_next(in_bounds, in_time),
            TileStreamAction::End
        );
    }
}

/// Polls the stream until it ends and collects the names of the tiles.
fn run(mut stream: CacheTileStream<u8, Meta, char>) -> Vec<String> {
    let mut names = vec![];
    let mut place = 0;
    loop {
        match stream.poll_next(in_bounds, in_time) {
            TileStreamAction::StartDecompression(next) => place = next,
            TileStreamAction::PollDecompression => {
                let tile = from_stored_element_ref(&stream.data_arc()[place]);
                names.push(stream.check_decompress_future_res(Ok(tile)).unwrap().meta);
            }
            TileStreamAction::End => return names,
        }
    }
}

#[test]
fn a_stream_gives_every_tile_of_its_query_once() {
    let data = Arc::new(vec![
        stored("b 1"),
        stored("a"),
        stored("b 2"),
        stored("b late"),
        stored("b 3"),
        stored("c"),
    ]);
    assert_eq!(
        run(CacheTileStream::new(Arc::clone(&data), 'b')),
        vec!["b 1", "b 2", "b 3"]
    );
    assert_eq!(run(CacheTileStream::new(Arc::clone(&data), 'c')), vec!["c"]);
    assert!(run(CacheTileStream::new(data, 'd')).is_empty());
}

#[test]
fn an_error_of_a_tile_is_an_item() {
    let mut stream = CacheTileStream::new(Arc::new(vec![stored("b")]), 'b');
    stream.poll_next(in_bounds, in_time);
    let item: Result<(), CacheError> =
        stream.check_decompress_future_res(Ok(Err(CacheError::InvalidTypeForInsertion)));
    assert!(matches!(item, Err(CacheError::InvalidTypeForInsertion)));
}

#[test]
fn a_cancelled_worker_is_an_item() {
    let runtime = tokio::runtime::Builder::new_current_thread().build().unwrap();
    let join_error = runtime.block_on(async {
        let task = tokio::spawn(std::future::pending::<()>());
        task.abort();
        task.await.unwrap_err()
    });
    let mut stream = CacheTileStream::new(Arc::new(vec![stored("b")]), 'b');
    stream.poll_next(in_bounds, in_time);
    let item: Result<(), CacheError> = stream.check_decompress_future_res(Err(join_error));
    assert!(matches!(
        item,
        Err(CacheError::CouldNotRunDecompressionTask { .. })
    ));
}

#[test]
fn a_stream_without_tiles_is_terminated() {
    let data: Arc<Vec<CompressedRasterTile2D<u8, Meta>>> = Arc::new(vec![]);
    let mut stream = CacheTileStream::new(data, 'b');
    assert!(stream.is_terminated());
    assert_eq!(stream.size_hint(), (0, Some(0)));
    assert_eq!(
        stream.poll_next(in_bounds, in_time),
        TileStreamAction::End
    );
}

#[test]
fn ordinary_tiles_can_be_stored_and_restored() {
    let tile = tile("t", grid(2, 2, vec![1_u32, 2, 3, 4], vec![true; 4]));
    assert!(can_be_stored(&tile));
    let stored = into_stored_element(tile);
    assert!(can_be_restored(&stored));
    let restored = from_any_element_ref(&stored).unwrap().unwrap();
    assert_eq!(
        parts(&restored.grid_array),
        (
            GridShape2D::new(2, 2),
            Some((vec![1, 2, 3, 4], vec![true; 4]))
        )
    );
}

#[test]
fn tiles_that_do_not_fit_into_memory_cannot_be_restored() {
    let many_pixels = into_stored_element(tile::<u8>("t", empty(usize::MAX, 2)));
    assert!(!can_be_restored(&many_pixels));
    assert!(from_any_element_ref(&many_pixels).is_none());
    // as many pixels of one byte fit
    let rows = usize::MAX / 4;
    assert!(can_be_restored(&into_stored_element(tile::<u8>("t", empty(rows, 1)))));
    assert!(!can_be_restored(&into_stored_element(tile::<u64>("t", empty(rows, 1)))));
}

#[test]
fn blocks_with_long_runs_are_not_decompressed() {
    assert!(do_lengths_fit(&[]));
    assert!(do_lengths_fit(&[0xff, 0xff, 0]));
    let mut block = vec![0_u8; 3];
    block.extend(vec![0xff; MAX_RUN - 1]);
    assert!(do_lengths_fit(&block));
    block.push(0xff);
    assert!(!do_lengths_fit(&block));
}

#[test]
fn only_so_many_bytes_are_compressed_at_once() {
    assert!(can_compress_len(0));
    assert!(can_compress_len(1_000_000));
    assert!(!can_compress_len(usize::MAX));
}
