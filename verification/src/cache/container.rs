//! The containers of the cache, which hold tiles of one pixel type each.

use std::sync::Arc;

use vstd::prelude::*;
use vstd::std_specs::convert::FromSpecImpl;

use crate::cache::error::CacheError;
use crate::cache::pixel::PixelBytes;
use crate::cache::tile::CompressedRasterTile2D;
use crate::primitives::{F32Bits, F64Bits};

verus! {

/// Another owner of a shared value, by the `clone` of `std::sync::Arc`. It owns the same value.
#[verifier::external_body]
pub(crate) fn share<T>(shared: &Arc<T>) -> (other: Arc<T>)
    ensures
        other == *shared,
{
    shared.clone()
}

/// The tiles that are in the cache.
pub enum CachedTiles<M> {
    U8(Arc<Vec<CompressedRasterTile2D<u8, M>>>),
    U16(Arc<Vec<CompressedRasterTile2D<u16, M>>>),
    U32(Arc<Vec<CompressedRasterTile2D<u32, M>>>),
    U64(Arc<Vec<CompressedRasterTile2D<u64, M>>>),
    I8(Arc<Vec<CompressedRasterTile2D<i8, M>>>),
    I16(Arc<Vec<CompressedRasterTile2D<i16, M>>>),
    I32(Arc<Vec<CompressedRasterTile2D<i32, M>>>),
    I64(Arc<Vec<CompressedRasterTile2D<i64, M>>>),
    F32(Arc<Vec<CompressedRasterTile2D<F32Bits, M>>>),
    F64(Arc<Vec<CompressedRasterTile2D<F64Bits, M>>>),
}

/// The tiles of a query that is still running.
pub enum LandingZoneQueryTiles<M> {
    U8(Vec<CompressedRasterTile2D<u8, M>>),
    U16(Vec<CompressedRasterTile2D<u16, M>>),
    U32(Vec<CompressedRasterTile2D<u32, M>>),
    U64(Vec<CompressedRasterTile2D<u64, M>>),
    I8(Vec<CompressedRasterTile2D<i8, M>>),
    I16(Vec<CompressedRasterTile2D<i16, M>>),
    I32(Vec<CompressedRasterTile2D<i32, M>>),
    I64(Vec<CompressedRasterTile2D<i64, M>>),
    F32(Vec<CompressedRasterTile2D<F32Bits, M>>),
    F64(Vec<CompressedRasterTile2D<F64Bits, M>>),
}

/// Everything but the pixels of the tiles.
pub open spec fn metas<T, M>(tiles: Seq<CompressedRasterTile2D<T, M>>) -> Seq<M> {
    Seq::new(tiles.len(), |i: int| tiles[i].meta)
}

/// `expired` is a possible answer to the question whether any of the tiles is expired.
pub open spec fn any_is_expired<M, F: Fn(&M) -> bool>(
    is_expired: F,
    metas: Seq<M>,
    expired: bool,
) -> bool {
    if expired {
        exists|i: int| 0 <= i < metas.len() && #[trigger] call_ensures(is_expired, (&metas[i],), true)
    } else {
        forall|i: int|
            0 <= i < metas.len() ==> #[trigger] call_ensures(is_expired, (&metas[i],), false)
    }
}

fn any_tile_is_expired<T, M, F: Fn(&M) -> bool>(
    tiles: &Vec<CompressedRasterTile2D<T, M>>,
    is_expired: F,
) -> (expired: bool)
    requires
        forall|meta: &M| call_requires(is_expired, (meta,)),
    ensures
        any_is_expired(is_expired, metas(tiles@), expired),
{
    let mut i: usize = 0;
    while i < tiles.len()
        invariant
            i <= tiles.len(),
            forall|meta: &M| call_requires(is_expired, (meta,)),
            forall|j: int|
                0 <= j < i ==> #[trigger] call_ensures(
                    is_expired,
                    (&metas(tiles@)[j],),
                    false,
                ),
        decreases tiles.len() - i,
    {
        let expired = is_expired(&tiles[i].meta);
        assert(metas(tiles@)[i as int] == tiles[i as int].meta);
        if expired {
            return true;
        }
        i += 1;
    }
    false
}

impl<M> CachedTiles<M> {
    pub open spec fn metas(self) -> Seq<M> {
        match self {
            CachedTiles::U8(tiles) => metas(tiles@),
            CachedTiles::U16(tiles) => metas(tiles@),
            CachedTiles::U32(tiles) => metas(tiles@),
            CachedTiles::U64(tiles) => metas(tiles@),
            CachedTiles::I8(tiles) => metas(tiles@),
            CachedTiles::I16(tiles) => metas(tiles@),
            CachedTiles::I32(tiles) => metas(tiles@),
            CachedTiles::I64(tiles) => metas(tiles@),
            CachedTiles::F32(tiles) => metas(tiles@),
            CachedTiles::F64(tiles) => metas(tiles@),
        }
    }

    /// A container is expired as soon as one of its tiles is.
    pub fn is_expired<F: Fn(&M) -> bool>(&self, is_expired: F) -> (expired: bool)
        requires
            forall|meta: &M| call_requires(is_expired, (meta,)),
        ensures
            any_is_expired(is_expired, self.metas(), expired),
    {
        match self {
            CachedTiles::U8(tiles) => any_tile_is_expired(tiles, is_expired),
            CachedTiles::U16(tiles) => any_tile_is_expired(tiles, is_expired),
            CachedTiles::U32(tiles) => any_tile_is_expired(tiles, is_expired),
            CachedTiles::U64(tiles) => any_tile_is_expired(tiles, is_expired),
            CachedTiles::I8(tiles) => any_tile_is_expired(tiles, is_expired),
            CachedTiles::I16(tiles) => any_tile_is_expired(tiles, is_expired),
            CachedTiles::I32(tiles) => any_tile_is_expired(tiles, is_expired),
            CachedTiles::I64(tiles) => any_tile_is_expired(tiles, is_expired),
            CachedTiles::F32(tiles) => any_tile_is_expired(tiles, is_expired),
            CachedTiles::F64(tiles) => any_tile_is_expired(tiles, is_expired),
        }
    }
}

impl<M> LandingZoneQueryTiles<M> {
    /// The number of tiles.
    pub open spec fn count(self) -> nat {
        match self {
            LandingZoneQueryTiles::U8(tiles) => tiles@.len(),
            LandingZoneQueryTiles::U16(tiles) => tiles@.len(),
            LandingZoneQueryTiles::U32(tiles) => tiles@.len(),
            LandingZoneQueryTiles::U64(tiles) => tiles@.len(),
            LandingZoneQueryTiles::I8(tiles) => tiles@.len(),
            LandingZoneQueryTiles::I16(tiles) => tiles@.len(),
            LandingZoneQueryTiles::I32(tiles) => tiles@.len(),
            LandingZoneQueryTiles::I64(tiles) => tiles@.len(),
            LandingZoneQueryTiles::F32(tiles) => tiles@.len(),
            LandingZoneQueryTiles::F64(tiles) => tiles@.len(),
        }
    }

    pub fn len(&self) -> (len: usize)
        ensures
            len == self.count(),
    {
        match self {
            LandingZoneQueryTiles::U8(tiles) => tiles.len(),
            LandingZoneQueryTiles::U16(tiles) => tiles.len(),
            LandingZoneQueryTiles::U32(tiles) => tiles.len(),
            LandingZoneQueryTiles::U64(tiles) => tiles.len(),
            LandingZoneQueryTiles::I8(tiles) => tiles.len(),
            LandingZoneQueryTiles::I16(tiles) => tiles.len(),
            LandingZoneQueryTiles::I32(tiles) => tiles.len(),
            LandingZoneQueryTiles::I64(tiles) => tiles.len(),
            LandingZoneQueryTiles::F32(tiles) => tiles.len(),
            LandingZoneQueryTiles::F64(tiles) => tiles.len(),
        }
    }

    pub fn is_empty(&self) -> (empty: bool)
        ensures
            empty == (self.count() == 0),
    {
        self.len() == 0
    }

    /// Adds a tile, if the landing zone is for tiles of its type.
    pub fn insert_element<T: CacheBackendElementExt<M>>(
        &mut self,
        element: CompressedRasterTile2D<T, M>,
    ) -> (result: Result<(), CacheError>)
        ensures
            is_insertion(
                *old(self),
                T::tiles_of_zone(*old(self)),
                element,
                result,
                *final(self),
                T::tiles_of_zone(*final(self)),
            ),
    {
        T::move_element_into_landing_zone(element, self)
    }

    /// An empty landing zone for tiles of a type.
    pub fn create_empty<T: CacheBackendElementExt<M>>() -> (zone: Self)
        ensures
            T::tiles_of_zone(zone) == Some(Seq::<CompressedRasterTile2D<T, M>>::empty()),
    {
        T::create_empty_landing_zone()
    }
}

/// The cache holds exactly the tiles of the landing zone.
pub open spec fn is_cache_of<M>(zone: LandingZoneQueryTiles<M>, cached: CachedTiles<M>) -> bool {
    match (zone, cached) {
        (LandingZoneQueryTiles::U8(tiles), CachedTiles::U8(shared)) => *shared == tiles,
        (LandingZoneQueryTiles::U16(tiles), CachedTiles::U16(shared)) => *shared == tiles,
        (LandingZoneQueryTiles::U32(tiles), CachedTiles::U32(shared)) => *shared == tiles,
        (LandingZoneQueryTiles::U64(tiles), CachedTiles::U64(shared)) => *shared == tiles,
        (LandingZoneQueryTiles::I8(tiles), CachedTiles::I8(shared)) => *shared == tiles,
        (LandingZoneQueryTiles::I16(tiles), CachedTiles::I16(shared)) => *shared == tiles,
        (LandingZoneQueryTiles::I32(tiles), CachedTiles::I32(shared)) => *shared == tiles,
        (LandingZoneQueryTiles::I64(tiles), CachedTiles::I64(shared)) => *shared == tiles,
        (LandingZoneQueryTiles::F32(tiles), CachedTiles::F32(shared)) => *shared == tiles,
        (LandingZoneQueryTiles::F64(tiles), CachedTiles::F64(shared)) => *shared == tiles,
        _ => false,
    }
}

impl<M> FromSpecImpl<LandingZoneQueryTiles<M>> for CachedTiles<M> {
    open spec fn obeys_from_spec() -> bool {
        false
    }

    open spec fn from_spec(value: LandingZoneQueryTiles<M>) -> Self {
        arbitrary()
    }
}

impl<M> From<LandingZoneQueryTiles<M>> for CachedTiles<M> {
    /// Moves the tiles of a finished query into the cache.
    fn from(value: LandingZoneQueryTiles<M>) -> (cached: Self)
        ensures
            is_cache_of(value, cached),
    {
        match value {
            LandingZoneQueryTiles::U8(tiles) => CachedTiles::U8(Arc::new(tiles)),
            LandingZoneQueryTiles::U16(tiles) => CachedTiles::U16(Arc::new(tiles)),
            LandingZoneQueryTiles::U32(tiles) => CachedTiles::U32(Arc::new(tiles)),
            LandingZoneQueryTiles::U64(tiles) => CachedTiles::U64(Arc::new(tiles)),
            LandingZoneQueryTiles::I8(tiles) => CachedTiles::I8(Arc::new(tiles)),
            LandingZoneQueryTiles::I16(tiles) => CachedTiles::I16(Arc::new(tiles)),
            LandingZoneQueryTiles::I32(tiles) => CachedTiles::I32(Arc::new(tiles)),
            LandingZoneQueryTiles::I64(tiles) => CachedTiles::I64(Arc::new(tiles)),
            LandingZoneQueryTiles::F32(tiles) => CachedTiles::F32(Arc::new(tiles)),
            LandingZoneQueryTiles::F64(tiles) => CachedTiles::F64(Arc::new(tiles)),
        }
    }
}

/// `result`, `after` and `after_tiles` are what becomes of inserting a tile into the landing zone
/// `before` with the tiles `tiles`: it is the last tile then, or it is rejected because it has
/// another type than the others.
pub open spec fn is_insertion<T, M>(
    before: LandingZoneQueryTiles<M>,
    tiles: Option<Seq<CompressedRasterTile2D<T, M>>>,
    element: CompressedRasterTile2D<T, M>,
    result: Result<(), CacheError>,
    after: LandingZoneQueryTiles<M>,
    after_tiles: Option<Seq<CompressedRasterTile2D<T, M>>>,
) -> bool {
    match tiles {
        Some(tiles) => result is Ok && after_tiles == Some(tiles.push(element)),
        None => (result matches Err(error) && error is InvalidTypeForInsertion) && after == before,
    }
}

/// A pixel type whose tiles can be cached.
pub trait CacheBackendElementExt<M>: PixelBytes {
    /// The tiles in a landing zone, if it is for tiles of this type.
    spec fn tiles_of_zone(zone: LandingZoneQueryTiles<M>) -> Option<
        Seq<CompressedRasterTile2D<Self, M>>,
    >;

    /// The tiles in a cache container, if it is for tiles of this type.
    spec fn tiles_of_cache(cached: CachedTiles<M>) -> Option<Seq<CompressedRasterTile2D<Self, M>>>;

    /// Tiles are not changed on their way from the landing zone into the cache.
    proof fn law_landing_zone_becomes_cache(zone: LandingZoneQueryTiles<M>, cached: CachedTiles<M>)
        requires
            is_cache_of(zone, cached),
        ensures
            Self::tiles_of_cache(cached) == Self::tiles_of_zone(zone),
    ;

    fn move_element_into_landing_zone(
        element: CompressedRasterTile2D<Self, M>,
        landing_zone: &mut LandingZoneQueryTiles<M>,
    ) -> (result: Result<(), CacheError>)
        ensures
            is_insertion(
                *old(landing_zone),
                Self::tiles_of_zone(*old(landing_zone)),
                element,
                result,
                *final(landing_zone),
                Self::tiles_of_zone(*final(landing_zone)),
            ),
    ;

    fn create_empty_landing_zone() -> (zone: LandingZoneQueryTiles<M>)
        ensures
            Self::tiles_of_zone(zone) == Some(Seq::<CompressedRasterTile2D<Self, M>>::empty()),
    ;

    fn results_arc(cached: &CachedTiles<M>) -> (tiles: Option<
        Arc<Vec<CompressedRasterTile2D<Self, M>>>,
    >)
        ensures
            match tiles {
                Some(tiles) => Self::tiles_of_cache(*cached) == Some(tiles@),
                None => Self::tiles_of_cache(*cached) is None,
            },
    ;
}

impl<M> CacheBackendElementExt<M> for u8 {
    open spec fn tiles_of_zone(zone: LandingZoneQueryTiles<M>) -> Option<
        Seq<CompressedRasterTile2D<u8, M>>,
    > {
        match zone {
            LandingZoneQueryTiles::U8(tiles) => Some(tiles@),
            _ => None,
        }
    }

    open spec fn tiles_of_cache(cached: CachedTiles<M>) -> Option<
        Seq<CompressedRasterTile2D<u8, M>>,
    > {
        match cached {
            CachedTiles::U8(tiles) => Some(tiles@),
            _ => None,
        }
    }

    proof fn law_landing_zone_becomes_cache(
        zone: LandingZoneQueryTiles<M>,
        cached: CachedTiles<M>,
    ) {
    }

    fn move_element_into_landing_zone(
        element: CompressedRasterTile2D<u8, M>,
        landing_zone: &mut LandingZoneQueryTiles<M>,
    ) -> (result: Result<(), CacheError>) {
        match landing_zone {
            LandingZoneQueryTiles::U8(tiles) => {
                tiles.push(element);
                Ok(())
            },
            _ => Err(CacheError::InvalidTypeForInsertion),
        }
    }

    fn create_empty_landing_zone() -> (zone: LandingZoneQueryTiles<M>) {
        LandingZoneQueryTiles::U8(Vec::new())
    }

    fn results_arc(cached: &CachedTiles<M>) -> (tiles: Option<
        Arc<Vec<CompressedRasterTile2D<u8, M>>>,
    >) {
        match cached {
            CachedTiles::U8(tiles) => Some(share(tiles)),
            _ => None,
        }
    }
}

impl<M> CacheBackendElementExt<M> for u16 {
    open spec fn tiles_of_zone(zone: LandingZoneQueryTiles<M>) -> Option<
        Seq<CompressedRasterTile2D<u16, M>>,
    > {
        match zone {
            LandingZoneQueryTiles::U16(tiles) => Some(tiles@),
            _ => None,
        }
    }

    open spec fn tiles_of_cache(cached: CachedTiles<M>) -> Option<
        Seq<CompressedRasterTile2D<u16, M>>,
    > {
        match cached {
            CachedTiles::U16(tiles) => Some(tiles@),
            _ => None,
        }
    }

    proof fn law_landing_zone_becomes_cache(
        zone: LandingZoneQueryTiles<M>,
        cached: CachedTiles<M>,
    ) {
    }

    fn move_element_into_landing_zone(
        element: CompressedRasterTile2D<u16, M>,
        landing_zone: &mut LandingZoneQueryTiles<M>,
    ) -> (result: Result<(), CacheError>) {
        match landing_zone {
            LandingZoneQueryTiles::U16(tiles) => {
                tiles.push(element);
                Ok(())
            },
            _ => Err(CacheError::InvalidTypeForInsertion),
        }
    }

    fn create_empty_landing_zone() -> (zone: LandingZoneQueryTiles<M>) {
        LandingZoneQueryTiles::U16(Vec::new())
    }

    fn results_arc(cached: &CachedTiles<M>) -> (tiles: Option<
        Arc<Vec<CompressedRasterTile2D<u16, M>>>,
    >) {
        match cached {
            CachedTiles::U16(tiles) => Some(share(tiles)),
            _ => None,
        }
    }
}

impl<M> CacheBackendElementExt<M> for u32 {
    open spec fn tiles_of_zone(zone: LandingZoneQueryTiles<M>) -> Option<
        Seq<CompressedRasterTile2D<u32, M>>,
    > {
        match zone {
            LandingZoneQueryTiles::U32(tiles) => Some(tiles@),
            _ => None,
        }
    }

    open spec fn tiles_of_cache(cached: CachedTiles<M>) -> Option<
        Seq<CompressedRasterTile2D<u32, M>>,
    > {
        match cached {
            CachedTiles::U32(tiles) => Some(tiles@),
            _ => None,
        }
    }

    proof fn law_landing_zone_becomes_cache(
        zone: LandingZoneQueryTiles<M>,
        cached: CachedTiles<M>,
    ) {
    }

    fn move_element_into_landing_zone(
        element: CompressedRasterTile2D<u32, M>,
        landing_zone: &mut LandingZoneQueryTiles<M>,
    ) -> (result: Result<(), CacheError>) {
        match landing_zone {
            LandingZoneQueryTiles::U32(tiles) => {
                tiles.push(element);
                Ok(())
            },
            _ => Err(CacheError::InvalidTypeForInsertion),
        }
    }

    fn create_empty_landing_zone() -> (zone: LandingZoneQueryTiles<M>) {
        LandingZoneQueryTiles::U32(Vec::new())
    }

    fn results_arc(cached: &CachedTiles<M>) -> (tiles: Option<
        Arc<Vec<CompressedRasterTile2D<u32, M>>>,
    >) {
        match cached {
            CachedTiles::U32(tiles) => Some(share(tiles)),
            _ => None,
        }
    }
}

impl<M> CacheBackendElementExt<M> for u64 {
    open spec fn tiles_of_zone(zone: LandingZoneQueryTiles<M>) -> Option<
        Seq<CompressedRasterTile2D<u64, M>>,
    > {
        match zone {
            LandingZoneQueryTiles::U64(tiles) => Some(tiles@),
            _ => None,
        }
    }

    open spec fn tiles_of_cache(cached: CachedTiles<M>) -> Option<
        Seq<CompressedRasterTile2D<u64, M>>,
    > {
        match cached {
            CachedTiles::U64(tiles) => Some(tiles@),
            _ => None,
        }
    }

    proof fn law_landing_zone_becomes_cache(
        zone: LandingZoneQueryTiles<M>,
        cached: CachedTiles<M>,
    ) {
    }

    fn move_element_into_landing_zone(
        element: CompressedRasterTile2D<u64, M>,
        landing_zone: &mut LandingZoneQueryTiles<M>,
    ) -> (result: Result<(), CacheError>) {
        match landing_zone {
            LandingZoneQueryTiles::U64(tiles) => {
                tiles.push(element);
                Ok(())
            },
            _ => Err(CacheError::InvalidTypeForInsertion),
        }
    }

    fn create_empty_landing_zone() -> (zone: LandingZoneQueryTiles<M>) {
        LandingZoneQueryTiles::U64(Vec::new())
    }

    fn results_arc(cached: &CachedTiles<M>) -> (tiles: Option<
        Arc<Vec<CompressedRasterTile2D<u64, M>>>,
    >) {
        match cached {
            CachedTiles::U64(tiles) => Some(share(tiles)),
            _ => None,
        }
    }
}

impl<M> CacheBackendElementExt<M> for i8 {
    open spec fn tiles_of_zone(zone: LandingZoneQueryTiles<M>) -> Option<
        Seq<CompressedRasterTile2D<i8, M>>,
    > {
        match zone {
            LandingZoneQueryTiles::I8(tiles) => Some(tiles@),
            _ => None,
        }
    }

    open spec fn tiles_of_cache(cached: CachedTiles<M>) -> Option<
        Seq<CompressedRasterTile2D<i8, M>>,
    > {
        match cached {
            CachedTiles::I8(tiles) => Some(tiles@),
            _ => None,
        }
    }

    proof fn law_landing_zone_becomes_cache(
        zone: LandingZoneQueryTiles<M>,
        cached: CachedTiles<M>,
    ) {
    }

    fn move_element_into_landing_zone(
        element: CompressedRasterTile2D<i8, M>,
        landing_zone: &mut LandingZoneQueryTiles<M>,
    ) -> (result: Result<(), CacheError>) {
        match landing_zone {
            LandingZoneQueryTiles::I8(tiles) => {
                tiles.push(element);
                Ok(())
            },
            _ => Err(CacheError::InvalidTypeForInsertion),
        }
    }

    fn create_empty_landing_zone() -> (zone: LandingZoneQueryTiles<M>) {
        LandingZoneQueryTiles::I8(Vec::new())
    }

    fn results_arc(cached: &CachedTiles<M>) -> (tiles: Option<
        Arc<Vec<CompressedRasterTile2D<i8, M>>>,
    >) {
        match cached {
            CachedTiles::I8(tiles) => Some(share(tiles)),
            _ => None,
        }
    }
}

impl<M> CacheBackendElementExt<M> for i16 {
    open spec fn tiles_of_zone(zone: LandingZoneQueryTiles<M>) -> Option<
        Seq<CompressedRasterTile2D<i16, M>>,
    > {
        match zone {
            LandingZoneQueryTiles::I16(tiles) => Some(tiles@),
            _ => None,
        }
    }

    open spec fn tiles_of_cache(cached: CachedTiles<M>) -> Option<
        Seq<CompressedRasterTile2D<i16, M>>,
    > {
        match cached {
            CachedTiles::I16(tiles) => Some(tiles@),
            _ => None,
        }
    }

    proof fn law_landing_zone_becomes_cache(
        zone: LandingZoneQueryTiles<M>,
        cached: CachedTiles<M>,
    ) {
    }

    fn move_element_into_landing_zone(
        element: CompressedRasterTile2D<i16, M>,
        landing_zone: &mut LandingZoneQueryTiles<M>,
    ) -> (result: Result<(), CacheError>) {
        match landing_zone {
            LandingZoneQueryTiles::I16(tiles) => {
                tiles.push(element);
                Ok(())
            },
            _ => Err(CacheError::InvalidTypeForInsertion),
        }
    }

    fn create_empty_landing_zone() -> (zone: LandingZoneQueryTiles<M>) {
        LandingZoneQueryTiles::I16(Vec::new())
    }

    fn results_arc(cached: &CachedTiles<M>) -> (tiles: Option<
        Arc<Vec<CompressedRasterTile2D<i16, M>>>,
    >) {
        match cached {
            CachedTiles::I16(tiles) => Some(share(tiles)),
            _ => None,
        }
    }
}

impl<M> CacheBackendElementExt<M> for i32 {
    open spec fn tiles_of_zone(zone: LandingZoneQueryTiles<M>) -> Option<
        Seq<CompressedRasterTile2D<i32, M>>,
    > {
        match zone {
            LandingZoneQueryTiles::I32(tiles) => Some(tiles@),
            _ => None,
        }
    }

    open spec fn tiles_of_cache(cached: CachedTiles<M>) -> Option<
        Seq<CompressedRasterTile2D<i32, M>>,
    > {
        match cached {
            CachedTiles::I32(tiles) => Some(tiles@),
            _ => None,
        }
    }

    proof fn law_landing_zone_becomes_cache(
        zone: LandingZoneQueryTiles<M>,
        cached: CachedTiles<M>,
    ) {
    }

    fn move_element_into_landing_zone(
        element: CompressedRasterTile2D<i32, M>,
        landing_zone: &mut LandingZoneQueryTiles<M>,
    ) -> (result: Result<(), CacheError>) {
        match landing_zone {
            LandingZoneQueryTiles::I32(tiles) => {
                tiles.push(element);
                Ok(())
            },
            _ => Err(CacheError::InvalidTypeForInsertion),
        }
    }

    fn create_empty_landing_zone() -> (zone: LandingZoneQueryTiles<M>) {
        LandingZoneQueryTiles::I32(Vec::new())
    }

    fn results_arc(cached: &CachedTiles<M>) -> (tiles: Option<
        Arc<Vec<CompressedRasterTile2D<i32, M>>>,
    >) {
        match cached {
            CachedTiles::I32(tiles) => Some(share(tiles)),
            _ => None,
        }
    }
}

impl<M> CacheBackendElementExt<M> for i64 {
    open spec fn tiles_of_zone(zone: LandingZoneQueryTiles<M>) -> Option<
        Seq<CompressedRasterTile2D<i64, M>>,
    > {
        match zone {
            LandingZoneQueryTiles::I64(tiles) => Some(tiles@),
            _ => None,
        }
    }

    open spec fn tiles_of_cache(cached: CachedTiles<M>) -> Option<
        Seq<CompressedRasterTile2D<i64, M>>,
    > {
        match cached {
            CachedTiles::I64(tiles) => Some(tiles@),
            _ => None,
        }
    }

    proof fn law_landing_zone_becomes_cache(
        zone: LandingZoneQueryTiles<M>,
        cached: CachedTiles<M>,
    ) {
    }

    fn move_element_into_landing_zone(
        element: CompressedRasterTile2D<i64, M>,
        landing_zone: &mut LandingZoneQueryTiles<M>,
    ) -> (result: Result<(), CacheError>) {
        match landing_zone {
            LandingZoneQueryTiles::I64(tiles) => {
                tiles.push(element);
                Ok(())
            },
            _ => Err(CacheError::InvalidTypeForInsertion),
        }
    }

    fn create_empty_landing_zone() -> (zone: LandingZoneQueryTiles<M>) {
        LandingZoneQueryTiles::I64(Vec::new())
    }

    fn results_arc(cached: &CachedTiles<M>) -> (tiles: Option<
        Arc<Vec<CompressedRasterTile2D<i64, M>>>,
    >) {
        match cached {
            CachedTiles::I64(tiles) => Some(share(tiles)),
            _ => None,
        }
    }
}

impl<M> CacheBackendElementExt<M> for F32Bits {
    open spec fn tiles_of_zone(zone: LandingZoneQueryTiles<M>) -> Option<
        Seq<CompressedRasterTile2D<F32Bits, M>>,
    > {
        match zone {
            LandingZoneQueryTiles::F32(tiles) => Some(tiles@),
            _ => None,
        }
    }

    open spec fn tiles_of_cache(cached: CachedTiles<M>) -> Option<
        Seq<CompressedRasterTile2D<F32Bits, M>>,
    > {
        match cached {
            CachedTiles::F32(tiles) => Some(tiles@),
            _ => None,
        }
    }

    proof fn law_landing_zone_becomes_cache(
        zone: LandingZoneQueryTiles<M>,
        cached: CachedTiles<M>,
    ) {
    }

    fn move_element_into_landing_zone(
        element: CompressedRasterTile2D<F32Bits, M>,
        landing_zone: &mut LandingZoneQueryTiles<M>,
    ) -> (result: Result<(), CacheError>) {
        match landing_zone {
            LandingZoneQueryTiles::F32(tiles) => {
                tiles.push(element);
                Ok(())
            },
            _ => Err(CacheError::InvalidTypeForInsertion),
        }
    }

    fn create_empty_landing_zone() -> (zone: LandingZoneQueryTiles<M>) {
        LandingZoneQueryTiles::F32(Vec::new())
    }

    fn results_arc(cached: &CachedTiles<M>) -> (tiles: Option<
        Arc<Vec<CompressedRasterTile2D<F32Bits, M>>>,
    >) {
        match cached {
            CachedTiles::F32(tiles) => Some(share(tiles)),
            _ => None,
        }
    }
}

impl<M> CacheBackendElementExt<M> for F64Bits {
    open spec fn tiles_of_zone(zone: LandingZoneQueryTiles<M>) -> Option<
        Seq<CompressedRasterTile2D<F64Bits, M>>,
    > {
        match zone {
            LandingZoneQueryTiles::F64(tiles) => Some(tiles@),
            _ => None,
        }
    }

    open spec fn tiles_of_cache(cached: CachedTiles<M>) -> Option<
        Seq<CompressedRasterTile2D<F64Bits, M>>,
    > {
        match cached {
            CachedTiles::F64(tiles) => Some(tiles@),
            _ => None,
        }
    }

    proof fn law_landing_zone_becomes_cache(
        zone: LandingZoneQueryTiles<M>,
        cached: CachedTiles<M>,
    ) {
    }

    fn move_element_into_landing_zone(
        element: CompressedRasterTile2D<F64Bits, M>,
        landing_zone: &mut LandingZoneQueryTiles<M>,
    ) -> (result: Result<(), CacheError>) {
        match landing_zone {
            LandingZoneQueryTiles::F64(tiles) => {
                tiles.push(element);
                Ok(())
            },
            _ => Err(CacheError::InvalidTypeForInsertion),
        }
    }

    fn create_empty_landing_zone() -> (zone: LandingZoneQueryTiles<M>) {
        LandingZoneQueryTiles::F64(Vec::new())
    }

    fn results_arc(cached: &CachedTiles<M>) -> (tiles: Option<
        Arc<Vec<CompressedRasterTile2D<F64Bits, M>>>,
    >) {
        match cached {
            CachedTiles::F64(tiles) => Some(share(tiles)),
            _ => None,
        }
    }
}

/// The region that the tiles of a query cover.
pub struct RasterQueryRectangle<B, I> {
    pub spatial_bounds: B,
    pub time_interval: I,
}

/// Extends the stored query so that it covers a tile: first its bounds with `extend`, then its time
/// interval with `unite`. Time intervals that have nothing in common cannot be united.
pub fn update_stored_query<B, P, I, E, F, G>(
    query: &mut RasterQueryRectangle<B, I>,
    tile_partition: &P,
    tile_time: &I,
    extend: F,
    unite: G,
) -> (result: Result<(), CacheError>)
    where F: Fn(&B, &P) -> B, G: Fn(&I, &I) -> Result<I, E>
    requires
        call_requires(extend, (&old(query).spatial_bounds, tile_partition)),
        call_requires(unite, (&old(query).time_interval, tile_time)),
    ensures
        call_ensures(
            extend,
            (&old(query).spatial_bounds, tile_partition),
            final(query).spatial_bounds,
        ),
        match result {
            Ok(()) => call_ensures(
                unite,
                (&old(query).time_interval, tile_time),
                Ok(final(query).time_interval),
            ),
            Err(error) => {
                &&& error is ElementAndQueryDoNotIntersect
                &&& final(query).time_interval == old(query).time_interval
                &&& exists|reason: E|
                    #[trigger] call_ensures(
                        unite,
                        (&old(query).time_interval, tile_time),
                        Err(reason),
                    )
            },
        },
{
    query.spatial_bounds = extend(&query.spatial_bounds, tile_partition);
    match unite(&query.time_interval, tile_time) {
        Ok(time_interval) => {
            query.time_interval = time_interval;
            Ok(())
        },
        Err(_) => Err(CacheError::ElementAndQueryDoNotIntersect),
    }
}

} // verus!
