//! Two-dimensional grids of pixels and the tiles that carry them.

use vstd::prelude::*;

use crate::primitives::{SpatialPartition2D, SpatialReference, SpatialResolution, TimeInterval};

verus! {

/// The extent of a two-dimensional grid: rows (`y`) first, then columns (`x`).
#[derive(Clone, Copy, Debug, PartialEq, Eq)]
pub struct GridShape2D {
    pub shape_array: [usize; 2],
}

impl GridShape2D {
    pub open spec fn rows(&self) -> nat {
        self.shape_array@[0] as nat
    }

    pub open spec fn columns(&self) -> nat {
        self.shape_array@[1] as nat
    }

    /// The number of cells in the grid.
    pub open spec fn elements(&self) -> nat {
        self.rows() * self.columns()
    }

    pub fn new(rows: usize, columns: usize) -> (shape: Self)
        ensures
            shape.rows() == rows,
            shape.columns() == columns,
    {
        GridShape2D { shape_array: [rows, columns] }
    }

    /// The number of cells in the grid.
    pub fn number_of_elements(&self) -> (count: usize)
        requires
            self.elements() <= usize::MAX,
        ensures
            count == self.elements(),
    {
        self.shape_array[0] * self.shape_array[1]
    }
}

/// A row-major grid of pixels; a pixel without a value is `None`.
pub struct PixelGrid<P> {
    pub shape: GridShape2D,
    pub data: Vec<Option<P>>,
}

impl<P> PixelGrid<P> {
    /// There is exactly one entry for each cell.
    pub open spec fn wf(&self) -> bool {
        self.data@.len() == self.shape.elements()
    }

    /// The pixel in row `y` and column `x`; outside of the grid there are no values.
    pub open spec fn pixel(&self, y: int, x: int) -> Option<P> {
        if 0 <= y < self.shape.rows() && 0 <= x < self.shape.columns() {
            self.data@[y * self.shape.columns() + x]
        } else {
            None
        }
    }

    /// The pixel in row `y` and column `x`.
    pub fn get_at_grid_index(&self, y: usize, x: usize) -> (pixel: Option<&P>)
        requires
            self.wf(),
        ensures
            match pixel {
                Some(value) => self.pixel(y as int, x as int) == Some(*value),
                None => self.pixel(y as int, x as int) is None,
            },
    {
        if y >= self.shape.shape_array[0] || x >= self.shape.shape_array[1] {
            return None;
        }
        let rows: usize = self.shape.shape_array[0];
        let columns: usize = self.shape.shape_array[1];
        proof {
            lemma_cell_in_bounds(y as int, x as int, rows as int, columns as int);
            assert(self.data.len() == rows * columns);
        }
        match &self.data[y * columns + x] {
            Some(value) => Some(value),
            None => None,
        }
    }
}

/// A cell of the grid has its place among the row-major cells.
pub proof fn lemma_cell_in_bounds(y: int, x: int, rows: int, columns: int)
    by (nonlinear_arith)
    requires
        0 <= y < rows,
        0 <= x < columns,
    ensures
        0 <= y * columns <= y * columns + x < rows * columns,
        (y + 1) * columns == y * columns + columns,
{
}

/// One band of a raster tile. `meta` is everything else that belongs to the tile: its time, its
/// position, its geo transform, its properties and its cache hint.
pub struct RasterTile2D<P, M> {
    pub band: u32,
    pub grid_array: PixelGrid<P>,
    pub meta: M,
}

/// The type of the values of a raster.
#[derive(Clone, Copy, Debug, PartialEq, Eq)]
pub enum RasterDataType {
    U8,
    U16,
    U32,
    U64,
    I8,
    I16,
    I32,
    I64,
    F32,
    F64,
}

/// What the result of a query to a raster looks like.
#[derive(Clone, Copy, Debug, PartialEq, Eq)]
pub struct RasterResultDescriptor {
    pub data_type: RasterDataType,
    pub spatial_reference: SpatialReference,
    pub time: Option<TimeInterval>,
    pub bbox: Option<SpatialPartition2D>,
    pub resolution: Option<SpatialResolution>,
    pub band_count: u32,
}

impl RasterResultDescriptor {
    /// The same descriptor with another type of values.
    pub fn with_data_type(&self, data_type: RasterDataType) -> (descriptor: Self)
        ensures
            descriptor == (RasterResultDescriptor { data_type, ..*self }),
    {
        RasterResultDescriptor {
            data_type,
            spatial_reference: self.spatial_reference,
            time: self.time,
            bbox: self.bbox,
            resolution: self.resolution,
            band_count: self.band_count,
        }
    }
}

/// The pixels of a grid stand row by row, and within a row from left to right. There are no pixels
/// outside of the grid.
pub proof fn law_pixels_stand_row_by_row<P>(grid: PixelGrid<P>, y: int, x: int)
    requires
        grid.wf(),
    ensures
        ({
            let rows = grid.shape.shape_array@[0] as int;
            let columns = grid.shape.shape_array@[1] as int;
            &&& grid.data@.len() == rows * columns
            &&& 0 <= y < rows && 0 <= x < columns ==> {
                &&& 0 <= y * columns + x < grid.data@.len()
                &&& grid.pixel(y, x) == grid.data@[y * columns + x]
            }
            &&& !(0 <= y < rows && 0 <= x < columns) ==> grid.pixel(y, x) is None
        }),
        grid.shape.elements() == grid.shape.shape_array@[0] * grid.shape.shape_array@[1],
{
    let rows = grid.shape.shape_array@[0] as int;
    let columns = grid.shape.shape_array@[1] as int;
    if 0 <= y < rows && 0 <= x < columns {
        lemma_cell_in_bounds(y, x, rows, columns);
    }
}

} // verus!
