//! Pixel-space values shared by the row and candidate generators.
//!
//! Sub-pixel quantities are fixed-point integers: one pixel is `PIXEL` units.
use vstd::prelude::*;

verus! {

/// Fixed-point units per pixel (and, for real-world lengths, per metre).
pub const PIXEL: i64 = 1000;

/// Largest magnitude of a row coordinate or radius that the grid arithmetic accepts.
pub const COORDINATE_LIMIT: i64 = 0x1000_0000_0000_0000;

/// Width and height of an image, in whole pixels.
#[derive(Clone, Copy, Debug, Default, PartialEq, Eq, Structural)]
pub struct ImageSize {
    pub width: u32,
    pub height: u32,
}

/// A whole-pixel coordinate, as scan lines and segments report them.
#[derive(Clone, Copy, Debug, PartialEq, Eq, Structural)]
pub struct PixelPoint {
    pub x: u16,
    pub y: u16,
}

/// Where the ground plane's horizon meets the left and right image edges,
/// as vertical positions in fixed-point units.
#[derive(Clone, Copy, Debug, Default, PartialEq, Eq, Structural)]
pub struct Horizon {
    pub left_horizon_y: i32,
    pub right_horizon_y: i32,
}

/// One band of the sampling grid: the radius of its sampling circles and the
/// vertical position of their centers, both in fixed-point units.
#[derive(Clone, Copy, Debug, PartialEq, Eq, Structural)]
pub struct Row {
    pub circle_radius: i64,
    pub center_y: i64,
}

/// A sampling circle in fixed-point units.
#[derive(Clone, Copy, Debug, PartialEq, Eq, Structural)]
pub struct Circle {
    pub center_x: i64,
    pub center_y: i64,
    pub radius: i64,
}

/// The row's values are small enough for the grid arithmetic.
pub open spec fn row_in_range(row: Row) -> bool {
    -COORDINATE_LIMIT <= row.center_y <= COORDINATE_LIMIT && row.circle_radius
        <= COORDINATE_LIMIT
}

pub open spec fn rows_in_range(rows: Seq<Row>) -> bool {
    forall|i: int| 0 <= i < rows.len() ==> #[trigger] row_in_range(rows[i])
}

} // verus!
