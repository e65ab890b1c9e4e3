//! What tiles go through on their way into the cache and out of it.

use vstd::bytes::{
    spec_u16_from_le_bytes, spec_u16_to_le_bytes, spec_u32_from_le_bytes, spec_u32_to_le_bytes,
    spec_u64_from_le_bytes, spec_u64_to_le_bytes,
};
use vstd::prelude::*;

use crate::cache::error::CacheError;
use crate::cache::grid::{
    compresses_to, decompresses_to, grid_compresses_to, grid_decompresses_to, CompressedView,
    GridView, MaskedGridView,
};
use crate::cache::lz4::{
    has_long_run_at, is_compressible_len, lengths_fit, lz4_decompressed, MAX_RUN,
};
use crate::cache::pixel::{
    all_bytes, all_values, law_values_round_trip, lemma_all_bytes_len, PixelBytes,
};
use crate::cache::tile::{
    has_fitting_blocks, has_fitting_size, is_compressible, is_restored_from, restored,
    stored_bytes, CompressedRasterTile2D, CompressedRasterTileExt, RasterTile2D,
};
use crate::primitives::{F32Bits, F64Bits};
use crate::raster::GridShape2D;
use crate::util::clones::has_equal_clones;

verus! {

/// Whatever way of compressing bytes is used: if it is undone when they are decompressed, a grid that
/// is compressed and decompressed is the same again, and so is an empty one.
pub proof fn law_compressed_grids_are_decompressed<
    D: Clone,
    T: PixelBytes,
    E,
    C: Fn(&[u8]) -> Vec<u8>,
    F: Fn(&[u8]) -> Result<Vec<u8>, E>,
>(
    compression: C,
    decompression: F,
    grid: GridView<D, T>,
    compressed: CompressedView<D>,
    outcome: Result<GridView<D, T>, E>,
)
    requires
        has_equal_clones::<D>(),
        grid matches GridView::Grid(masked) ==> masked.mask_shape == masked.shape,
        forall|bytes: Seq<u8>, block: Seq<u8>, result: Result<Seq<u8>, E>| #[trigger]
            compresses_to(compression, bytes, block) && #[trigger] decompresses_to(
                decompression,
                block,
                result,
            ) ==> result == Ok::<Seq<u8>, E>(bytes),
        grid_compresses_to(compression, grid, compressed),
        grid_decompresses_to(decompression, compressed, outcome),
    ensures
        outcome == Ok::<GridView<D, T>, E>(grid),
{
    match grid {
        GridView::Grid(masked) => {
            law_values_round_trip(masked.data);
            law_values_round_trip(masked.mask);
            let blocks = compressed->Compressed_0;
            assert(compresses_to(compression, all_bytes(masked.data), blocks.data));
            assert(compresses_to(compression, all_bytes(masked.mask), blocks.mask));
            match outcome {
                Ok(GridView::Grid(after)) => {
                    let (data, mask) = choose|data: Seq<u8>, mask: Seq<u8>|
                        {
                            &&& #[trigger] decompresses_to(decompression, blocks.data, Ok(data))
                            &&& #[trigger] decompresses_to(decompression, blocks.mask, Ok(mask))
                            &&& after.data == all_values::<T>(data)
                            &&& after.mask == all_values::<bool>(mask)
                            &&& cloned(blocks.shape, after.shape)
                            &&& cloned(blocks.shape, after.mask_shape)
                        };
                    assert(data == all_bytes(masked.data));
                    assert(mask == all_bytes(masked.mask));
                    assert(after =~= masked);
                },
                Ok(GridView::Empty(_)) => {},
                Err(error) => {
                    assert(decompresses_to(decompression, blocks.data, Err(error))
                        || decompresses_to(decompression, blocks.mask, Err(error)));
                },
            }
        },
        GridView::Empty(_) => {},
    }
}

/// An empty grid takes no room. Any other grid takes the room of its two blocks.
pub proof fn law_blocks_of_a_grid<D>(compressed: CompressedView<D>)
    ensures
        match compressed {
            CompressedView::Empty(shape) => {
                &&& compressed.shape() == shape
                &&& compressed.blocks().0.len() == 0
                &&& compressed.blocks().1.len() == 0
            },
            CompressedView::Compressed(grid) => {
                &&& compressed.shape() == grid.shape
                &&& compressed.blocks().0 == grid.data
                &&& compressed.blocks().1 == grid.mask
            },
        },
{
}

/// What is read from the cache: the shape that was stored and what the two blocks hold. There is an
/// error exactly if one of them is broken.
pub proof fn law_restored_tiles<T: PixelBytes, M: Clone>(
    stored: CompressedRasterTile2D<T, M>,
    tile: Result<RasterTile2D<T, M>, CacheError>,
)
    requires
        is_restored_from(stored, tile),
    ensures
        tile matches Err(error) ==> error is CouldNotDecompressElement,
        tile matches Ok(tile) ==> cloned(stored.meta, tile.meta),
        match stored.grid_array@ {
            CompressedView::Empty(shape) => tile matches Ok(tile) && tile.grid_array@ == GridView::<
                GridShape2D,
                T,
            >::Empty(shape),
            CompressedView::Compressed(grid) => {
                let room = (grid.shape.elements() * T::size()) as nat;
                let data = lz4_decompressed(grid.data, room);
                let mask = lz4_decompressed(grid.mask, room);
                &&& tile is Ok <==> data is Some && mask is Some
                &&& tile matches Ok(tile) ==> tile.grid_array@ == GridView::Grid(
                    MaskedGridView {
                        shape: grid.shape,
                        mask_shape: grid.shape,
                        data: all_values::<T>(data->0),
                        mask: all_values::<bool>(mask->0),
                    },
                )
            },
        },
{
}

/// What can be stored and what can be restored: empty grids always, and other grids as long as their
/// sizes and the runs in their blocks can be counted.
pub proof fn law_sizes_that_fit<T: PixelBytes>(
    grid: GridView<GridShape2D, T>,
    stored: CompressedView<GridShape2D>,
    len: int,
    block: Seq<u8>,
    start: int,
)
    ensures
        is_compressible(grid) <==> match grid {
            GridView::Empty(_) => true,
            GridView::Grid(grid) => {
                &&& grid.data.len() * T::size() * 110 <= usize::MAX
                &&& grid.data.len() * T::size() <= u32::MAX
                &&& grid.mask.len() * 110 <= usize::MAX
                &&& grid.mask.len() <= u32::MAX
            },
        },
        is_compressible_len(len) <==> len * 110 <= usize::MAX && len <= u32::MAX,
        has_fitting_size::<T>(stored) <==> {
            &&& stored.shape().elements() <= usize::MAX
            &&& stored.shape().elements() * T::size() <= usize::MAX
            &&& stored is Compressed ==> stored.shape().elements() * T::size() <= isize::MAX
        },
        stored matches CompressedView::Compressed(blocks) ==> (has_fitting_blocks(stored)
            <==> lengths_fit(blocks.data) && lengths_fit(blocks.mask)),
        stored is Empty ==> has_fitting_blocks(stored),
        has_long_run_at(block, start) <==> 0 <= start && start + 8_388_608 <= block.len() && (
        forall|i: int| start <= i < start + 8_388_608 ==> #[trigger] block[i] == 0xff),
        lengths_fit(block) ==> !has_long_run_at(block, start),
        !lengths_fit(block) ==> exists|place: int| #[trigger] has_long_run_at(block, place),
        stored_bytes::<T>(stored.shape()) == stored.shape().elements() * T::size(),
        MAX_RUN == 8_388_608,
{
}

/// A pixel takes as many bytes as its type, with the least significant byte first. A number with a sign
/// is stored by its bits, and so is a floating point number. Every byte but zero stands for a valid
/// pixel.
pub proof fn law_bytes_of_pixels(
    valid: bool,
    a: u8,
    b: u16,
    c: u32,
    d: u64,
    e: i8,
    f: i16,
    g: i32,
    h: i64,
    i: F32Bits,
    j: F64Bits,
    bytes: Seq<u8>,
)
    ensures
        bool::size() == 1,
        u8::size() == 1 && i8::size() == 1,
        u16::size() == 2 && i16::size() == 2,
        u32::size() == 4 && i32::size() == 4 && F32Bits::size() == 4,
        u64::size() == 8 && i64::size() == 8 && F64Bits::size() == 8,
        valid.bytes() == seq![if valid {
            1u8
        } else {
            0u8
        }],
        a.bytes() == seq![a],
        b.bytes() == spec_u16_to_le_bytes(b),
        c.bytes() == spec_u32_to_le_bytes(c),
        d.bytes() == spec_u64_to_le_bytes(d),
        e.bytes() == seq![e as u8],
        f.bytes() == spec_u16_to_le_bytes(f as u16),
        g.bytes() == spec_u32_to_le_bytes(g as u32),
        h.bytes() == spec_u64_to_le_bytes(h as u64),
        i.bytes() == spec_u32_to_le_bytes(i.bits),
        j.bytes() == spec_u64_to_le_bytes(j.bits),
        bool::from_bytes(bytes) <==> bytes[0] != 0,
        u8::from_bytes(bytes) == bytes[0],
        u16::from_bytes(bytes) == spec_u16_from_le_bytes(bytes),
        u32::from_bytes(bytes) == spec_u32_from_le_bytes(bytes),
        u64::from_bytes(bytes) == spec_u64_from_le_bytes(bytes),
        i8::from_bytes(bytes) == bytes[0] as i8,
        i16::from_bytes(bytes) == spec_u16_from_le_bytes(bytes) as i16,
        i32::from_bytes(bytes) == spec_u32_from_le_bytes(bytes) as i32,
        i64::from_bytes(bytes) == spec_u64_from_le_bytes(bytes) as i64,
        F32Bits::from_bytes(bytes).bits == spec_u32_from_le_bytes(bytes),
        F64Bits::from_bytes(bytes).bits == spec_u64_from_le_bytes(bytes),
{
}

/// The bytes of pixels follow each other, and the pixels are read back from them. Bytes at the end that
/// do not make up a pixel change nothing.
pub proof fn law_bytes_follow_each_other<T: PixelBytes>(
    values: Seq<T>,
    value: T,
    more: Seq<u8>,
)
    requires
        more.len() < T::size(),
    ensures
        all_bytes(Seq::<T>::empty()).len() == 0,
        all_bytes(values.push(value)) == all_bytes(values) + value.bytes(),
        all_values::<T>(all_bytes(values) + more) == values,
{
    assert(values.push(value).drop_last() =~= values);
    let bytes = all_bytes(values);
    let longer = bytes + more;
    let n = values.len() as int;
    let size = T::size() as int;
    T::lemma_size();
    lemma_all_bytes_len(values);
    law_values_round_trip(values);
    assert(n * size == size * n) by (nonlinear_arith);
    vstd::arithmetic::div_mod::lemma_fundamental_div_mod_converse(
        longer.len() as int,
        size,
        n,
        more.len() as int,
    );
    assert(all_values::<T>(longer).len() == n);
    assert forall|k: int| 0 <= k < n implies all_values::<T>(longer)[k] == values[k] by {
        assert(0 <= k * size && k * size + size <= n * size) by (nonlinear_arith)
            requires
                0 <= k < n,
                1 <= size,
        ;
        assert(longer.subrange(k * size, k * size + size) =~= bytes.subrange(
            k * size,
            k * size + size,
        ));
        assert(all_values::<T>(bytes)[k] == values[k]);
    }
    assert(all_values::<T>(longer) =~= values);
}

/// The pixels of a stored tile are those of its grid, and everything else is kept beside them.
pub proof fn law_stored_tiles_keep_everything<T: PixelBytes, M: Clone>(
    stored: CompressedRasterTile2D<T, M>,
)
    ensures
        stored.pixels() == stored.grid_array@,
        stored.tile_meta() == stored.meta,
{
}

} // verus!
