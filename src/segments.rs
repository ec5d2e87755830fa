//! Scan lines and their classified segments, as the segmentation stage hands them over.
use vstd::prelude::*;

verus! {

#[derive(Clone, Copy, Debug, PartialEq, Eq, Structural)]
pub enum EdgeType {
    Rising,
    Falling,
    ImageBorder,
    LimbBorder,
}

#[derive(Clone, Copy, Debug, PartialEq, Eq, Structural)]
pub enum Intensity {
    Low,
    High,
}

#[derive(Clone, Copy, Debug, PartialEq, Eq, Structural)]
pub struct YCbCr444 {
    pub y: u8,
    pub cb: u8,
    pub cr: u8,
}

/// A vertical run of similar pixels on a scan line, from `start` to `end`.
#[derive(Clone, Copy, Debug, PartialEq, Eq, Structural)]
pub struct Segment {
    pub start: u16,
    pub end: u16,
    pub start_edge_type: EdgeType,
    pub end_edge_type: EdgeType,
    pub color: YCbCr444,
    pub field_color: Intensity,
}

/// The segments found along the image column at `position`, top to bottom.
#[derive(Clone, Debug)]
pub struct ScanLine {
    pub position: u16,
    pub segments: Vec<Segment>,
}

} // verus!
