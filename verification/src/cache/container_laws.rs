//! What the containers of the cache do with their tiles, whatever the type of the pixels.

use vstd::prelude::*;

use crate::cache::container::{
    any_is_expired, is_cache_of, is_insertion, CacheBackendElementExt, CachedTiles,
    LandingZoneQueryTiles,
};
use crate::cache::error::CacheError;
use crate::cache::tile::CompressedRasterTile2D;
use crate::primitives::{F32Bits, F64Bits};

verus! {

/// The tiles of a landing zone are found by the type of their pixels and by no other type, and all of
/// them are counted.
pub proof fn law_landing_zones_have_one_type<M>(zone: LandingZoneQueryTiles<M>)
    ensures
        u8::tiles_of_zone(zone) == match zone {
            LandingZoneQueryTiles::U8(tiles) => Some(tiles@),
            _ => None,
        },
        u16::tiles_of_zone(zone) == match zone {
            LandingZoneQueryTiles::U16(tiles) => Some(tiles@),
            _ => None,
        },
        u32::tiles_of_zone(zone) == match zone {
            LandingZoneQueryTiles::U32(tiles) => Some(tiles@),
            _ => None,
        },
        u64::tiles_of_zone(zone) == match zone {
            LandingZoneQueryTiles::U64(tiles) => Some(tiles@),
            _ => None,
        },
        i8::tiles_of_zone(zone) == match zone {
            LandingZoneQueryTiles::I8(tiles) => Some(tiles@),
            _ => None,
        },
        i16::tiles_of_zone(zone) == match zone {
            LandingZoneQueryTiles::I16(tiles) => Some(tiles@),
            _ => None,
        },
        i32::tiles_of_zone(zone) == match zone {
            LandingZoneQueryTiles::I32(tiles) => Some(tiles@),
            _ => None,
        },
        i64::tiles_of_zone(zone) == match zone {
            LandingZoneQueryTiles::I64(tiles) => Some(tiles@),
            _ => None,
        },
        F32Bits::tiles_of_zone(zone) == match zone {
            LandingZoneQueryTiles::F32(tiles) => Some(tiles@),
            _ => None,
        },
        F64Bits::tiles_of_zone(zone) == match zone {
            LandingZoneQueryTiles::F64(tiles) => Some(tiles@),
            _ => None,
        },
        zone.count() == match zone {
            LandingZoneQueryTiles::U8(tiles) => tiles@.len(),
            LandingZoneQueryTiles::U16(tiles) => tiles@.len(),
            LandingZoneQueryTiles::U32(tiles) => tiles@.len(),
            LandingZoneQueryTiles::U64(tiles) => tiles@.len(),
            LandingZoneQueryTiles::I8(tiles) => tiles@.len(),
            LandingZoneQueryTiles::I16(tiles) => tiles@.len(),
            LandingZoneQueryTiles::I32(tiles) => tiles@.len(),
            LandingZoneQueryTiles::I64(tiles) => tiles@.len(),
            LandingZoneQueryTiles::F32(tiles) => tiles@.len(),
            LandingZoneQueryTiles::F64(tiles) => tiles@.len(),
        },
{
}

/// The tiles of a container are found by the type of their pixels and by no other type, and it is known
/// of all of them whether they are expired.
pub proof fn law_containers_have_one_type<M>(cached: CachedTiles<M>)
    ensures
        u8::tiles_of_cache(cached) == match cached {
            CachedTiles::U8(tiles) => Some(tiles@),
            _ => None,
        },
        u16::tiles_of_cache(cached) == match cached {
            CachedTiles::U16(tiles) => Some(tiles@),
            _ => None,
        },
        u32::tiles_of_cache(cached) == match cached {
            CachedTiles::U32(tiles) => Some(tiles@),
            _ => None,
        },
        u64::tiles_of_cache(cached) == match cached {
            CachedTiles::U64(tiles) => Some(tiles@),
            _ => None,
        },
        i8::tiles_of_cache(cached) == match cached {
            CachedTiles::I8(tiles) => Some(tiles@),
            _ => None,
        },
        i16::tiles_of_cache(cached) == match cached {
            CachedTiles::I16(tiles) => Some(tiles@),
            _ => None,
        },
        i32::tiles_of_cache(cached) == match cached {
            CachedTiles::I32(tiles) => Some(tiles@),
            _ => None,
        },
        i64::tiles_of_cache(cached) == match cached {
            CachedTiles::I64(tiles) => Some(tiles@),
            _ => None,
        },
        F32Bits::tiles_of_cache(cached) == match cached {
            CachedTiles::F32(tiles) => Some(tiles@),
            _ => None,
        },
        F64Bits::tiles_of_cache(cached) == match cached {
            CachedTiles::F64(tiles) => Some(tiles@),
            _ => None,
        },
        cached.metas() == match cached {
            CachedTiles::U8(tiles) => Seq::new(tiles@.len(), |i: int| tiles@[i].meta),
            CachedTiles::U16(tiles) => Seq::new(tiles@.len(), |i: int| tiles@[i].meta),
            CachedTiles::U32(tiles) => Seq::new(tiles@.len(), |i: int| tiles@[i].meta),
            CachedTiles::U64(tiles) => Seq::new(tiles@.len(), |i: int| tiles@[i].meta),
            CachedTiles::I8(tiles) => Seq::new(tiles@.len(), |i: int| tiles@[i].meta),
            CachedTiles::I16(tiles) => Seq::new(tiles@.len(), |i: int| tiles@[i].meta),
            CachedTiles::I32(tiles) => Seq::new(tiles@.len(), |i: int| tiles@[i].meta),
            CachedTiles::I64(tiles) => Seq::new(tiles@.len(), |i: int| tiles@[i].meta),
            CachedTiles::F32(tiles) => Seq::new(tiles@.len(), |i: int| tiles@[i].meta),
            CachedTiles::F64(tiles) => Seq::new(tiles@.len(), |i: int| tiles@[i].meta),
        },
{
}

/// The tiles of a finished query are all in the cache, in their order and with their type.
pub proof fn law_finished_queries_are_cached<M>(
    zone: LandingZoneQueryTiles<M>,
    cached: CachedTiles<M>,
)
    requires
        is_cache_of(zone, cached),
    ensures
        match zone {
            LandingZoneQueryTiles::U8(tiles) => cached matches CachedTiles::U8(shared) && shared@
                == tiles@,
            LandingZoneQueryTiles::U16(tiles) => cached matches CachedTiles::U16(shared) && shared@
                == tiles@,
            LandingZoneQueryTiles::U32(tiles) => cached matches CachedTiles::U32(shared) && shared@
                == tiles@,
            LandingZoneQueryTiles::U64(tiles) => cached matches CachedTiles::U64(shared) && shared@
                == tiles@,
            LandingZoneQueryTiles::I8(tiles) => cached matches CachedTiles::I8(shared) && shared@
                == tiles@,
            LandingZoneQueryTiles::I16(tiles) => cached matches CachedTiles::I16(shared) && shared@
                == tiles@,
            LandingZoneQueryTiles::I32(tiles) => cached matches CachedTiles::I32(shared) && shared@
                == tiles@,
            LandingZoneQueryTiles::I64(tiles) => cached matches CachedTiles::I64(shared) && shared@
                == tiles@,
            LandingZoneQueryTiles::F32(tiles) => cached matches CachedTiles::F32(shared) && shared@
                == tiles@,
            LandingZoneQueryTiles::F64(tiles) => cached matches CachedTiles::F64(shared) && shared@
                == tiles@,
        },
        zone.count() == cached.metas().len(),
{
}

/// A container is expired exactly if one of its tiles is, as long as it is always the same of each tile.
pub proof fn law_one_expired_tile_is_enough<M, F: Fn(&M) -> bool>(
    is_expired: F,
    metas: Seq<M>,
    expired: bool,
    answers: Seq<bool>,
)
    requires
        any_is_expired(is_expired, metas, expired),
        answers.len() == metas.len(),
        forall|i: int, answer: bool|
            0 <= i < metas.len() && #[trigger] call_ensures(is_expired, (&metas[i],), answer)
                ==> answer == answers[i],
    ensures
        expired <==> exists|i: int| 0 <= i < answers.len() && #[trigger] answers[i],
{
    if expired {
        let i = choose|i: int|
            0 <= i < metas.len() && #[trigger] call_ensures(is_expired, (&metas[i],), true);
        assert(answers[i]);
    } else {
        assert forall|i: int| 0 <= i < answers.len() implies !#[trigger] answers[i] by {
            assert(call_ensures(is_expired, (&metas[i],), false));
        }
    }
}

/// A tile of the right type becomes the last one, and all others stay where they are. A tile of another
/// type is rejected, and nothing changes.
pub proof fn law_inserted_tiles_are_the_last<T: CacheBackendElementExt<M>, M>(
    before: LandingZoneQueryTiles<M>,
    element: CompressedRasterTile2D<T, M>,
    result: Result<(), CacheError>,
    after: LandingZoneQueryTiles<M>,
)
    requires
        is_insertion(
            before,
            T::tiles_of_zone(before),
            element,
            result,
            after,
            T::tiles_of_zone(after),
        ),
    ensures
        result is Ok <==> T::tiles_of_zone(before) is Some,
        T::tiles_of_zone(before) matches Some(tiles) ==> {
            &&& T::tiles_of_zone(after) matches Some(more) && {
                &&& more.len() == tiles.len() + 1
                &&& more[tiles.len() as int] == element
                &&& forall|i: int| 0 <= i < tiles.len() ==> #[trigger] more[i] == tiles[i]
            }
        },
        T::tiles_of_zone(before) is None ==> after == before && result->Err_0
            is InvalidTypeForInsertion,
{
}

} // verus!
