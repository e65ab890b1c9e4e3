//! Masked grids and their compressed form.

use std::marker::PhantomData;

use vstd::prelude::*;

use crate::cache::pixel::{all_bytes, all_values, bytes_to_data, data_to_bytes, PixelBytes};
use crate::raster::GridShape2D;

verus! {

/// A grid of values in row-major order.
pub struct Grid<D, T> {
    pub shape: D,
    pub data: Vec<T>,
}

/// A grid with a mask that tells which of its values are valid.
pub struct MaskedGrid<D, T> {
    pub inner_grid: Grid<D, T>,
    pub validity_mask: Grid<D, bool>,
}

/// A grid without valid values.
pub struct EmptyGrid<D, T> {
    pub shape: D,
    pub type_marker: PhantomData<T>,
}

pub enum GridOrEmpty<D, T> {
    Grid(MaskedGrid<D, T>),
    Empty(EmptyGrid<D, T>),
}

/// The mathematical content of a masked grid.
#[verifier::ext_equal]
pub struct MaskedGridView<D, T> {
    pub shape: D,
    pub mask_shape: D,
    pub data: Seq<T>,
    pub mask: Seq<bool>,
}

impl<D, T> View for MaskedGrid<D, T> {
    type V = MaskedGridView<D, T>;

    open spec fn view(&self) -> MaskedGridView<D, T> {
        MaskedGridView {
            shape: self.inner_grid.shape,
            mask_shape: self.validity_mask.shape,
            data: self.inner_grid.data@,
            mask: self.validity_mask.data@,
        }
    }
}

impl<D, T> View for EmptyGrid<D, T> {
    type V = D;

    open spec fn view(&self) -> D {
        self.shape
    }
}

/// The mathematical content of a grid that may be empty.
pub enum GridView<D, T> {
    Grid(MaskedGridView<D, T>),
    Empty(D),
}

impl<D, T> View for GridOrEmpty<D, T> {
    type V = GridView<D, T>;

    open spec fn view(&self) -> GridView<D, T> {
        match self {
            GridOrEmpty::Grid(grid) => GridView::Grid(grid@),
            GridOrEmpty::Empty(empty) => GridView::Empty(empty@),
        }
    }
}

impl<D, T> MaskedGrid<D, T> {
    pub fn shape(&self) -> (shape: &D)
        ensures
            *shape == self@.shape,
    {
        &self.inner_grid.shape
    }
}

/// A masked grid whose values and mask are compressed one by one.
pub struct CompressedMaskedGrid<D, T> {
    shape: D,
    type_marker: PhantomData<T>,
    data: Vec<u8>,
    mask: Vec<u8>,
}

/// The mathematical content of a compressed grid: its shape and the two compressed blocks.
#[verifier::ext_equal]
pub struct CompressedGridView<D> {
    pub shape: D,
    pub data: Seq<u8>,
    pub mask: Seq<u8>,
}

impl<D, T> View for CompressedMaskedGrid<D, T> {
    type V = CompressedGridView<D>;

    closed spec fn view(&self) -> CompressedGridView<D> {
        CompressedGridView { shape: self.shape, data: self.data@, mask: self.mask@ }
    }
}

/// `block` is a possible outcome of `compression` for `bytes`.
pub open spec fn compresses_to<F: Fn(&[u8]) -> Vec<u8>>(
    compression: F,
    bytes: Seq<u8>,
    block: Seq<u8>,
) -> bool {
    exists|input: &[u8], output: Vec<u8>|
        input@ == bytes && output@ == block && #[trigger] call_ensures(
            compression,
            (input,),
            output,
        )
}

/// `outcome` is a possible outcome of `decompression` for `block`.
pub open spec fn decompresses_to<E, F: Fn(&[u8]) -> Result<Vec<u8>, E>>(
    decompression: F,
    block: Seq<u8>,
    outcome: Result<Seq<u8>, E>,
) -> bool {
    exists|input: &[u8], output: Result<Vec<u8>, E>|
        input@ == block && result_view(output) == outcome && #[trigger] call_ensures(
            decompression,
            (input,),
            output,
        )
}

pub open spec fn result_view<E>(result: Result<Vec<u8>, E>) -> Result<Seq<u8>, E> {
    match result {
        Ok(bytes) => Ok(bytes@),
        Err(error) => Err(error),
    }
}

/// The function accepts these bytes.
pub open spec fn accepts<R, F: Fn(&[u8]) -> R>(function: F, bytes: Seq<u8>) -> bool {
    forall|input: &[u8]| input@ == bytes ==> #[trigger] call_requires(function, (input,))
}

impl<D, T> CompressedMaskedGrid<D, T> {
    pub fn new(shape: D, data: Vec<u8>, mask: Vec<u8>) -> (grid: Self)
        ensures
            grid@ == (CompressedGridView { shape, data: data@, mask: mask@ }),
    {
        CompressedMaskedGrid { shape, type_marker: PhantomData, data, mask }
    }

    pub fn compressed_data_len(&self) -> (len: usize)
        ensures
            len == self@.data.len(),
    {
        self.data.len()
    }

    pub fn compressed_mask_len(&self) -> (len: usize)
        ensures
            len == self@.mask.len(),
    {
        self.mask.len()
    }

    pub fn compressed_len(&self) -> (len: usize)
        requires
            self@.data.len() + self@.mask.len() <= usize::MAX,
        ensures
            len == self@.data.len() + self@.mask.len(),
    {
        self.compressed_data_len() + self.compressed_mask_len()
    }

    pub fn compressed_data_slice(&self) -> (slice: &[u8])
        ensures
            slice@ == self@.data,
    {
        self.data.as_slice()
    }

    pub fn compressed_mask_slice(&self) -> (slice: &[u8])
        ensures
            slice@ == self@.mask,
    {
        self.mask.as_slice()
    }

    pub fn shape(&self) -> (shape: &D)
        ensures
            *shape == self@.shape,
    {
        &self.shape
    }

    /// Compresses the values and the mask of a grid.
    pub fn compress_masked_grid<F>(grid: &MaskedGrid<D, T>, compression: F) -> (compressed: Self)
        where F: Fn(&[u8]) -> Vec<u8>, D: Clone, T: PixelBytes
        requires
            accepts(compression, all_bytes(grid@.data)),
            accepts(compression, all_bytes(grid@.mask)),
        ensures
            cloned(grid@.shape, compressed@.shape),
            compresses_to(compression, all_bytes(grid@.data), compressed@.data),
            compresses_to(compression, all_bytes(grid@.mask), compressed@.mask),
    {
        let data_bytes = data_to_bytes(&grid.inner_grid.data);
        let mask_bytes = data_to_bytes(&grid.validity_mask.data);
        let data = compression(data_bytes.as_slice());
        let mask = compression(mask_bytes.as_slice());
        CompressedMaskedGrid {
            shape: grid.shape().clone(),
            type_marker: PhantomData,
            data,
            mask,
        }
    }

    /// Decompresses the values and then the mask; the first error is returned. The grid has as many
    /// values as the decompressed bytes make up.
    pub fn decompress_masked_grid<E, F>(&self, decompression: F) -> (grid: Result<
        MaskedGrid<D, T>,
        E,
    >)
        where F: Fn(&[u8]) -> Result<Vec<u8>, E>, D: Clone, T: PixelBytes
        requires
            accepts(decompression, self@.data),
            accepts(decompression, self@.mask),
        ensures
            match grid {
                Ok(grid) => exists|data: Seq<u8>, mask: Seq<u8>|
                    {
                        &&& #[trigger] decompresses_to(decompression, self@.data, Ok(data))
                        &&& #[trigger] decompresses_to(decompression, self@.mask, Ok(mask))
                        &&& grid@.data == all_values::<T>(data)
                        &&& grid@.mask == all_values::<bool>(mask)
                        &&& cloned(self@.shape, grid@.shape)
                        &&& cloned(self@.shape, grid@.mask_shape)
                    },
                Err(error) => decompresses_to(decompression, self@.data, Err(error)) || exists|
                    data: Seq<u8>,
                |
                    #[trigger] decompresses_to(decompression, self@.data, Ok(data))
                        && decompresses_to(decompression, self@.mask, Err(error)),
            },
    {
        let data = match decompression(self.data.as_slice()) {
            Ok(data) => data,
            Err(error) => return Err(error),
        };
        assert(decompresses_to(decompression, self@.data, Ok(data@)));
        let mask = match decompression(self.mask.as_slice()) {
            Ok(mask) => mask,
            Err(error) => return Err(error),
        };
        assert(decompresses_to(decompression, self@.mask, Ok(mask@)));
        let inner_grid = Grid {
            shape: self.shape.clone(),
            data: bytes_to_data::<T>(data.as_slice()),
        };
        let validity_mask = Grid {
            shape: self.shape.clone(),
            data: bytes_to_data::<bool>(mask.as_slice()),
        };
        Ok(MaskedGrid { inner_grid, validity_mask })
    }
}

/// A grid that is compressed, unless it is empty.
pub enum CompressedGridOrEmpty<D, T> {
    Empty(EmptyGrid<D, T>),
    Compressed(CompressedMaskedGrid<D, T>),
}

/// The mathematical content of a compressed grid that may be empty.
pub enum CompressedView<D> {
    Empty(D),
    Compressed(CompressedGridView<D>),
}

impl<D, T> View for CompressedGridOrEmpty<D, T> {
    type V = CompressedView<D>;

    open spec fn view(&self) -> CompressedView<D> {
        match self {
            CompressedGridOrEmpty::Empty(empty) => CompressedView::Empty(empty@),
            CompressedGridOrEmpty::Compressed(grid) => CompressedView::Compressed(grid@),
        }
    }
}

impl<D> CompressedView<D> {
    /// The two blocks; an empty grid needs none.
    pub open spec fn blocks(self) -> (Seq<u8>, Seq<u8>) {
        match self {
            CompressedView::Empty(_) => (Seq::empty(), Seq::empty()),
            CompressedView::Compressed(grid) => (grid.data, grid.mask),
        }
    }

    pub open spec fn shape(self) -> D {
        match self {
            CompressedView::Empty(shape) => shape,
            CompressedView::Compressed(grid) => grid.shape,
        }
    }
}

/// The compression accepts the bytes of the grid.
pub open spec fn accepts_grid<D, T: PixelBytes, F: Fn(&[u8]) -> Vec<u8>>(
    compression: F,
    grid: GridView<D, T>,
) -> bool {
    match grid {
        GridView::Empty(_) => true,
        GridView::Grid(grid) => accepts(compression, all_bytes(grid.data)) && accepts(
            compression,
            all_bytes(grid.mask),
        ),
    }
}

/// `compressed` is a possible outcome of compressing `grid`.
pub open spec fn grid_compresses_to<D: Clone, T: PixelBytes, F: Fn(&[u8]) -> Vec<u8>>(
    compression: F,
    grid: GridView<D, T>,
    compressed: CompressedView<D>,
) -> bool {
    match (grid, compressed) {
        (GridView::Empty(shape), CompressedView::Empty(compressed_shape)) => cloned(
            shape,
            compressed_shape,
        ),
        (GridView::Grid(grid), CompressedView::Compressed(compressed)) => {
            &&& cloned(grid.shape, compressed.shape)
            &&& compresses_to(compression, all_bytes(grid.data), compressed.data)
            &&& compresses_to(compression, all_bytes(grid.mask), compressed.mask)
        },
        _ => false,
    }
}

/// The decompression accepts the blocks of the grid.
pub open spec fn accepts_blocks<D, E, F: Fn(&[u8]) -> Result<Vec<u8>, E>>(
    decompression: F,
    compressed: CompressedView<D>,
) -> bool {
    compressed matches CompressedView::Compressed(grid) ==> accepts(decompression, grid.data)
        && accepts(decompression, grid.mask)
}

/// `outcome` is a possible outcome of decompressing `compressed`.
pub open spec fn grid_decompresses_to<
    D: Clone,
    T: PixelBytes,
    E,
    F: Fn(&[u8]) -> Result<Vec<u8>, E>,
>(decompression: F, compressed: CompressedView<D>, outcome: Result<GridView<D, T>, E>) -> bool {
    match (compressed, outcome) {
        (CompressedView::Empty(shape), Ok(GridView::Empty(empty_shape))) => cloned(
            shape,
            empty_shape,
        ),
        (CompressedView::Compressed(compressed), Ok(GridView::Grid(grid))) => exists|
            data: Seq<u8>,
            mask: Seq<u8>,
        |
            {
                &&& #[trigger] decompresses_to(decompression, compressed.data, Ok(data))
                &&& #[trigger] decompresses_to(decompression, compressed.mask, Ok(mask))
                &&& grid.data == all_values::<T>(data)
                &&& grid.mask == all_values::<bool>(mask)
                &&& cloned(compressed.shape, grid.shape)
                &&& cloned(compressed.shape, grid.mask_shape)
            },
        (CompressedView::Compressed(compressed), Err(error)) => decompresses_to(
            decompression,
            compressed.data,
            Err(error),
        ) || exists|data: Seq<u8>|
            #[trigger] decompresses_to(decompression, compressed.data, Ok(data))
                && decompresses_to(decompression, compressed.mask, Err(error)),
        _ => false,
    }
}

impl<D, T> CompressedGridOrEmpty<D, T> {
    pub fn compressed_data_len(&self) -> (len: usize)
        ensures
            len == self@.blocks().0.len(),
    {
        match self {
            Self::Empty(_) => 0,
            Self::Compressed(grid) => grid.compressed_data_len(),
        }
    }

    pub fn compressed_mask_len(&self) -> (len: usize)
        ensures
            len == self@.blocks().1.len(),
    {
        match self {
            Self::Empty(_) => 0,
            Self::Compressed(grid) => grid.compressed_mask_len(),
        }
    }

    pub fn compressed_len(&self) -> (len: usize)
        requires
            self@.blocks().0.len() + self@.blocks().1.len() <= usize::MAX,
        ensures
            len == self@.blocks().0.len() + self@.blocks().1.len(),
    {
        match self {
            Self::Empty(_) => 0,
            Self::Compressed(grid) => grid.compressed_len(),
        }
    }

    pub fn shape(&self) -> (shape: &D)
        ensures
            *shape == self@.shape(),
    {
        match self {
            Self::Empty(empty) => &empty.shape,
            Self::Compressed(grid) => grid.shape(),
        }
    }

    pub fn is_empty(&self) -> (empty: bool)
        ensures
            empty == self@ is Empty,
    {
        match self {
            Self::Empty(_) => true,
            Self::Compressed(_) => false,
        }
    }

    /// Compresses a grid; an empty grid stays as it is.
    pub fn compress_grid<F>(grid: &GridOrEmpty<D, T>, compression: F) -> (compressed: Self)
        where F: Fn(&[u8]) -> Vec<u8>, D: Clone, T: PixelBytes
        requires
            accepts_grid(compression, grid@),
        ensures
            grid_compresses_to(compression, grid@, compressed@),
    {
        match grid {
            GridOrEmpty::Empty(empty) => Self::Empty(
                EmptyGrid { shape: empty.shape.clone(), type_marker: PhantomData },
            ),
            GridOrEmpty::Grid(grid) => Self::Compressed(
                CompressedMaskedGrid::compress_masked_grid(grid, compression),
            ),
        }
    }

    /// Decompresses a grid; an empty grid stays as it is.
    pub fn decompress_grid<E, F>(&self, decompression: F) -> (grid: Result<GridOrEmpty<D, T>, E>)
        where F: Fn(&[u8]) -> Result<Vec<u8>, E>, D: Clone, T: PixelBytes
        requires
            accepts_blocks(decompression, self@),
        ensures
            grid_decompresses_to(
                decompression,
                self@,
                match grid {
                    Ok(grid) => Ok::<GridView<D, T>, E>(grid@),
                    Err(error) => Err(error),
                },
            ),
    {
        match self {
            Self::Empty(empty) => Ok(
                GridOrEmpty::Empty(
                    EmptyGrid { shape: empty.shape.clone(), type_marker: PhantomData },
                ),
            ),
            Self::Compressed(compressed) => match compressed.decompress_masked_grid(decompression) {
                Ok(grid) => Ok(GridOrEmpty::Grid(grid)),
                Err(error) => Err(error),
            },
        }
    }
}

impl<T> CompressedGridOrEmpty<GridShape2D, T> {
    /// The number of rows and columns.
    pub fn axis_size(&self) -> (size: [usize; 2])
        ensures
            size == self@.shape().shape_array,
    {
        self.shape().shape_array
    }

    pub fn number_of_elements(&self) -> (count: usize)
        requires
            self@.shape().elements() <= usize::MAX,
        ensures
            count == self@.shape().elements(),
    {
        self.shape().number_of_elements()
    }
}

} // verus!
