//! Coordinates, boxes and time.

use vstd::prelude::*;

verus! {

/// A single precision floating point number, by its bits.
#[derive(Clone, Copy, Debug, PartialEq, Eq)]
pub struct F32Bits {
    pub bits: u32,
}

/// A double precision floating point number, by its bits.
#[derive(Clone, Copy, Debug, PartialEq, Eq)]
pub struct F64Bits {
    pub bits: u64,
}

#[derive(Clone, Copy, Debug, PartialEq, Eq)]
pub struct Coordinate2D {
    pub x: F64Bits,
    pub y: F64Bits,
}

#[derive(Clone, Copy, Debug, PartialEq, Eq)]
pub struct BoundingBox2D {
    pub lower_left_coordinate: Coordinate2D,
    pub upper_right_coordinate: Coordinate2D,
}

/// A time interval; both ends are milliseconds since the Unix epoch.
#[derive(Clone, Copy, Debug, PartialEq, Eq)]
pub struct TimeInterval {
    pub start: i64,
    pub end: i64,
}

/// A region of a raster, from its upper left to its lower right corner.
#[derive(Clone, Copy, Debug, PartialEq, Eq)]
pub struct SpatialPartition2D {
    pub upper_left_coordinate: Coordinate2D,
    pub lower_right_coordinate: Coordinate2D,
}

impl BoundingBox2D {
    /// The same region, from its upper left to its lower right corner.
    pub open spec fn partition(self) -> SpatialPartition2D {
        SpatialPartition2D {
            upper_left_coordinate: Coordinate2D {
                x: self.lower_left_coordinate.x,
                y: self.upper_right_coordinate.y,
            },
            lower_right_coordinate: Coordinate2D {
                x: self.upper_right_coordinate.x,
                y: self.lower_left_coordinate.y,
            },
        }
    }

    pub fn as_partition(&self) -> (partition: SpatialPartition2D)
        ensures
            partition == self.partition(),
    {
        SpatialPartition2D {
            upper_left_coordinate: Coordinate2D {
                x: self.lower_left_coordinate.x,
                y: self.upper_right_coordinate.y,
            },
            lower_right_coordinate: Coordinate2D {
                x: self.upper_right_coordinate.x,
                y: self.lower_left_coordinate.y,
            },
        }
    }
}

/// The first point in time that can be represented, the start of the year -262143.
pub const MIN_TIME: i64 = -8_334_601_228_800_000;

/// The last point in time that can be represented, the end of the year 262142.
pub const MAX_TIME: i64 = 8_210_266_876_799_999;

/// The reference system of coordinates.
#[derive(Clone, Copy, Debug, PartialEq, Eq)]
pub enum SpatialReference {
    /// The EPSG reference system with this code.
    Epsg(u32),
}

/// The code of the reference system with longitudes and latitudes.
pub const EPSG_4326: u32 = 4326;

/// The size of a pixel.
#[derive(Clone, Copy, Debug, PartialEq, Eq)]
pub struct SpatialResolution {
    pub x: F64Bits,
    pub y: F64Bits,
}

} // verus!
