//! Tiles of the cache, in their plain and in their stored form.

use vstd::prelude::*;

use crate::cache::error::CacheError;
use crate::cache::grid::{
    accepts_blocks, accepts_grid, grid_compresses_to, grid_decompresses_to, CompressedGridOrEmpty,
    CompressedView, GridOrEmpty, GridView, MaskedGridView,
};
use crate::cache::lz4::{
    can_compress_len, do_lengths_fit, is_compressible_len, is_decompressible, lengths_fit,
    lz4_compress, lz4_decompress, lz4_decompressed,
};
use crate::cache::pixel::{
    all_bytes, all_values, law_values_round_trip, lemma_all_bytes_len, PixelBytes,
};
use crate::raster::GridShape2D;

verus! {

/// A tile: its pixels and everything else that belongs to it (its time, its position, its geo
/// transform, its properties and its cache hint).
pub struct BaseTile<G, M> {
    pub grid_array: G,
    pub meta: M,
}

pub type RasterTile<D, T, M> = BaseTile<GridOrEmpty<D, T>, M>;

pub type RasterTile2D<T, M> = RasterTile<GridShape2D, T, M>;

pub type CompressedRasterTile<D, T, M> = BaseTile<CompressedGridOrEmpty<D, T>, M>;

pub type CompressedRasterTile2D<T, M> = CompressedRasterTile<GridShape2D, T, M>;

/// A tile whose pixels can be compressed and decompressed.
pub trait CompressedRasterTileExt<D: Clone, T: PixelBytes, M: Clone>: Sized {
    /// The compressed pixels.
    spec fn pixels(&self) -> CompressedView<D>;

    /// Everything but the pixels.
    spec fn tile_meta(&self) -> M;

    fn compress_tile<F: Fn(&[u8]) -> Vec<u8>>(
        tile: RasterTile<D, T, M>,
        compression: F,
    ) -> (compressed: Result<Self, CacheError>)
        requires
            accepts_grid(compression, tile.grid_array@),
        ensures
            compressed matches Ok(compressed) && compressed.tile_meta() == tile.meta
                && grid_compresses_to(compression, tile.grid_array@, compressed.pixels()),
    ;

    fn decompress_tile<F: Fn(&[u8]) -> Result<Vec<u8>, CacheError>>(
        &self,
        decompression: F,
    ) -> (tile: Result<RasterTile<D, T, M>, CacheError>)
        requires
            accepts_blocks(decompression, self.pixels()),
        ensures
            match tile {
                Ok(tile) => cloned(self.tile_meta(), tile.meta) && grid_decompresses_to(
                    decompression,
                    self.pixels(),
                    Ok(tile.grid_array@),
                ),
                Err(error) => grid_decompresses_to(
                    decompression,
                    self.pixels(),
                    Err::<GridView<D, T>, CacheError>(error),
                ),
            },
    ;

    fn compressed_data_len(&self) -> (len: usize)
        ensures
            len == self.pixels().blocks().0.len(),
    ;
}

impl<T: PixelBytes, M: Clone> CompressedRasterTileExt<GridShape2D, T, M> for BaseTile<
    CompressedGridOrEmpty<GridShape2D, T>,
    M,
> {
    open spec fn pixels(&self) -> CompressedView<GridShape2D> {
        self.grid_array@
    }

    open spec fn tile_meta(&self) -> M {
        self.meta
    }

    fn compress_tile<F: Fn(&[u8]) -> Vec<u8>>(
        tile: RasterTile<GridShape2D, T, M>,
        compression: F,
    ) -> (compressed: Result<Self, CacheError>) {
        let grid_array = CompressedGridOrEmpty::compress_grid(&tile.grid_array, compression);
        Ok(BaseTile { grid_array, meta: tile.meta })
    }

    fn decompress_tile<F: Fn(&[u8]) -> Result<Vec<u8>, CacheError>>(
        &self,
        decompression: F,
    ) -> (tile: Result<RasterTile<GridShape2D, T, M>, CacheError>) {
        match self.grid_array.decompress_grid(decompression) {
            Ok(grid_array) => Ok(BaseTile { grid_array, meta: self.meta.clone() }),
            Err(error) => Err(error),
        }
    }

    fn compressed_data_len(&self) -> (len: usize) {
        self.grid_array.compressed_data_len()
    }
}

/// Whenever there is room for them, the bytes come back when the block is decompressed.
pub open spec fn is_block_of(block: Seq<u8>, bytes: Seq<u8>) -> bool {
    forall|max_len: nat|
        bytes.len() <= max_len <= isize::MAX ==> #[trigger] lz4_decompressed(block, max_len) == Some(
            bytes,
        )
}

/// The compressed grid is a stored form of the grid.
pub open spec fn is_stored_form<T: PixelBytes>(
    grid: GridView<GridShape2D, T>,
    stored: CompressedView<GridShape2D>,
) -> bool {
    match (grid, stored) {
        (GridView::Empty(shape), CompressedView::Empty(stored_shape)) => shape == stored_shape,
        (GridView::Grid(grid), CompressedView::Compressed(stored)) => {
            &&& stored.shape == grid.shape
            &&& is_block_of(stored.data, all_bytes(grid.data))
            &&& is_block_of(stored.mask, all_bytes(grid.mask))
        },
        _ => false,
    }
}

/// The size of the pixels of a grid.
pub open spec fn stored_bytes<T: PixelBytes>(shape: GridShape2D) -> nat {
    shape.elements() * T::size()
}

/// The grid that a stored form stands for; there is none if one of its blocks is broken.
pub open spec fn restored<T: PixelBytes>(stored: CompressedView<GridShape2D>) -> Option<
    GridView<GridShape2D, T>,
> {
    match stored {
        CompressedView::Empty(shape) => Some(GridView::Empty(shape)),
        CompressedView::Compressed(grid) => {
            let max_len = stored_bytes::<T>(grid.shape);
            match (lz4_decompressed(grid.data, max_len), lz4_decompressed(grid.mask, max_len)) {
                (Some(data), Some(mask)) => Some(
                    GridView::Grid(
                        MaskedGridView {
                            shape: grid.shape,
                            mask_shape: grid.shape,
                            data: all_values::<T>(data),
                            mask: all_values::<bool>(mask),
                        },
                    ),
                ),
                _ => None,
            }
        },
    }
}

/// A grid that has a value and a mask entry for each of its cells.
pub open spec fn is_complete<T>(grid: GridView<GridShape2D, T>) -> bool {
    grid matches GridView::Grid(grid) ==> {
        &&& grid.mask_shape == grid.shape
        &&& grid.data.len() == grid.shape.elements()
        &&& grid.mask.len() == grid.shape.elements()
    }
}

/// A grid whose values and mask can be compressed.
pub open spec fn is_compressible<T: PixelBytes>(grid: GridView<GridShape2D, T>) -> bool {
    grid matches GridView::Grid(grid) ==> {
        &&& is_compressible_len((grid.data.len() * T::size()) as int)
        &&& is_compressible_len(grid.mask.len() as int)
    }
}

/// A stored form whose size can be handled.
pub open spec fn has_fitting_size<T: PixelBytes>(stored: CompressedView<GridShape2D>) -> bool {
    &&& stored.shape().elements() <= usize::MAX
    &&& stored_bytes::<T>(stored.shape()) <= usize::MAX
    &&& stored is Compressed ==> stored_bytes::<T>(stored.shape()) <= isize::MAX
}

/// The lengths within both blocks of a stored form can be handled, whatever they were made of.
pub open spec fn has_fitting_blocks(stored: CompressedView<GridShape2D>) -> bool {
    lengths_fit(stored.blocks().0) && lengths_fit(stored.blocks().1)
}

/// A stored form whose size and blocks can be handled.
pub open spec fn is_restorable<T: PixelBytes>(stored: CompressedView<GridShape2D>) -> bool {
    &&& has_fitting_size::<T>(stored)
    &&& is_decompressible(stored.blocks().0, stored_bytes::<T>(stored.shape()))
    &&& is_decompressible(stored.blocks().1, stored_bytes::<T>(stored.shape()))
}

/// What is read from the cache is what was written to it: what a complete grid was stored as can be
/// read, and the grid is restored from it.
pub proof fn law_stored_grids_are_restored<T: PixelBytes>(
    grid: GridView<GridShape2D, T>,
    stored: CompressedView<GridShape2D>,
)
    requires
        is_complete(grid),
        is_compressible(grid),
        stored_bytes::<T>(stored.shape()) <= usize::MAX,
        is_stored_form(grid, stored),
    ensures
        is_restorable::<T>(stored),
        restored::<T>(stored) == Some(grid),
{
    T::lemma_size();
    let n = stored.shape().elements() as int;
    let size = T::size() as int;
    assert(n <= n * size) by (nonlinear_arith)
        requires
            0 <= n,
            1 <= size,
    ;
    match grid {
        GridView::Grid(grid) => {
            lemma_all_bytes_len(grid.data);
            lemma_all_bytes_len(grid.mask);
            law_values_round_trip(grid.data);
            law_values_round_trip(grid.mask);
            assert(n * 1 == n);
        },
        GridView::Empty(_) => {
            assert(stored.blocks().0 =~= Seq::empty());
        },
    }
}

/// Whether the pixels of a tile can be compressed.
pub fn can_be_stored<T: PixelBytes, M>(tile: &RasterTile2D<T, M>) -> (can: bool)
    ensures
        can == is_compressible(tile.grid_array@),
{
    match &tile.grid_array {
        GridOrEmpty::Empty(_) => true,
        GridOrEmpty::Grid(grid) => {
            let can_store_data = match grid.inner_grid.data.len().checked_mul(T::size_in_bytes()) {
                Some(len) => can_compress_len(len),
                None => false,
            };
            can_store_data && can_compress_len(grid.validity_mask.data.len())
        },
    }
}

/// Whether the size and the blocks of a stored form can be handled, whatever they were made of.
pub fn can_be_restored<T: PixelBytes, M>(stored: &CompressedRasterTile2D<T, M>) -> (can: bool)
    ensures
        can == (has_fitting_size::<T>(stored.grid_array@) && has_fitting_blocks(
            stored.grid_array@,
        )),
{
    let shape = stored.grid_array.shape();
    let elements: usize = match shape.shape_array[0].checked_mul(shape.shape_array[1]) {
        Some(elements) => elements,
        None => {
            return false;
        },
    };
    let bytes: usize = match elements.checked_mul(T::size_in_bytes()) {
        Some(bytes) => bytes,
        None => {
            return false;
        },
    };
    match &stored.grid_array {
        CompressedGridOrEmpty::Empty(_) => true,
        CompressedGridOrEmpty::Compressed(grid) => bytes <= isize::MAX as usize
            && do_lengths_fit(grid.compressed_data_slice())
            && do_lengths_fit(grid.compressed_mask_slice()),
    }
}

/// The stored form of a tile, compressed with LZ4.
pub fn into_stored_element<T: PixelBytes, M: Clone>(tile: RasterTile2D<T, M>) -> (stored:
    CompressedRasterTile2D<T, M>)
    requires
        is_compressible(tile.grid_array@),
    ensures
        is_stored_form(tile.grid_array@, stored.grid_array@),
        stored.grid_array@.blocks().0.len() + stored.grid_array@.blocks().1.len() <= usize::MAX,
        stored.meta == tile.meta,
{
    proof {
        if let GridView::Grid(grid) = tile.grid_array@ {
            lemma_all_bytes_len(grid.data);
            lemma_all_bytes_len(grid.mask);
            assert(grid.mask.len() * 1 == grid.mask.len());
        }
    }
    CompressedRasterTile2D::<T, M>::compress_tile(tile, lz4_compress).unwrap()
}

/// `tile` is what a stored form stands for, or the error that there is no such tile.
pub open spec fn is_restored_from<T: PixelBytes, M: Clone>(
    stored: CompressedRasterTile2D<T, M>,
    tile: Result<RasterTile2D<T, M>, CacheError>,
) -> bool {
    match tile {
        Ok(tile) => restored::<T>(stored.grid_array@) == Some(tile.grid_array@) && cloned(
            stored.meta,
            tile.meta,
        ),
        Err(error) => error is CouldNotDecompressElement && restored::<T>(
            stored.grid_array@,
        ) is None,
    }
}

/// The tile that a stored form stands for.
pub fn from_stored_element_ref<T: PixelBytes, M: Clone>(
    stored: &CompressedRasterTile2D<T, M>,
) -> (tile: Result<RasterTile2D<T, M>, CacheError>)
    requires
        is_restorable::<T>(stored.grid_array@),
    ensures
        is_restored_from(*stored, tile),
{
    let max_len: usize = stored.grid_array.number_of_elements() * T::size_in_bytes();
    let decompression = |block: &[u8]| -> (bytes: Result<Vec<u8>, CacheError>)
        requires
            is_decompressible(block@, max_len as nat),
            max_len <= isize::MAX,
        ensures
            match bytes {
                Ok(bytes) => lz4_decompressed(block@, max_len as nat) == Some(bytes@),
                Err(error) => error is CouldNotDecompressElement && lz4_decompressed(
                    block@,
                    max_len as nat,
                ) is None,
            },
        {
            match lz4_decompress(block, max_len) {
                Ok(bytes) => Ok(bytes),
                Err(source) => Err(CacheError::CouldNotDecompressElement { source }),
            }
        };
    stored.decompress_tile(decompression)
}

/// The tile that a stored form stands for, if it can be handled whatever it was made of.
pub fn from_any_element_ref<T: PixelBytes, M: Clone>(
    stored: &CompressedRasterTile2D<T, M>,
) -> (tile: Option<Result<RasterTile2D<T, M>, CacheError>>)
    ensures
        match tile {
            Some(tile) => is_restored_from(*stored, tile),
            None => !has_fitting_size::<T>(stored.grid_array@) || !has_fitting_blocks(
                stored.grid_array@,
            ),
        },
{
    if can_be_restored(stored) {
        Some(from_stored_element_ref(stored))
    } else {
        None
    }
}

} // verus!
