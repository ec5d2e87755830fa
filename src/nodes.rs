//! The per-cycle processing nodes. They keep no state between cycles.
use vstd::prelude::*;
use crate::calibration::CameraMatrix;
use crate::candidates::{candidate_grid, generate_candidates, PerspectiveGridCandidates};
use crate::image::{ImageSize, PixelPoint, Row};
use crate::rows::{generate_rows, is_row_walk, RadiusQuery};
use crate::segments::ScanLine;

verus! {

/// Builds the sampling grid of one camera image.
pub struct PerspectiveGridCandidatesProvider {}

impl PerspectiveGridCandidatesProvider {
    pub fn new() -> Self {
        Self {}
    }

    /// The candidate grid of one image: the rows of the walk up from the bottom
    /// of the image to `camera_matrix`'s horizon, with the projected ball radius
    /// that `radius_at` gives (radii in fixed-point units), then the circles that
    /// the unclaimed segments of the vertical scan lines fall into.
    pub fn cycle<F: Fn(RadiusQuery) -> Option<i32>>(
        &self,
        camera_matrix: &CameraMatrix,
        image_size: ImageSize,
        vertical_scan_lines: &[ScanLine],
        skip_segments: &[PixelPoint],
        ball_radius: i32,
        fallback_radius: i32,
        minimum_radius: i32,
        radius_at: F,
    ) -> (r: PerspectiveGridCandidates)
        requires
            minimum_radius > 0,
            forall|q: RadiusQuery| radius_at.requires((q,)),
        ensures
            exists|rows: Seq<Row>|
                #![trigger candidate_grid(rows, skip_segments@, vertical_scan_lines@)]
                is_row_walk(
                    *camera_matrix,
                    image_size,
                    minimum_radius,
                    fallback_radius,
                    ball_radius,
                    radius_at,
                    rows,
                ) && r.candidates@ == candidate_grid(rows, skip_segments@, vertical_scan_lines@),
    {
        let rows = generate_rows(
            camera_matrix,
            image_size,
            minimum_radius,
            fallback_radius,
            ball_radius,
            radius_at,
        );
        let candidates = generate_candidates(vertical_scan_lines, skip_segments, &rows);
        candidates
    }
}

/// Builds the projection model of both cameras.
pub struct CameraMatrixCalculator {}

impl CameraMatrixCalculator {
    pub fn new() -> Self {
        Self {}
    }
}

/// Hands the collected joint commands to the actuators.
pub struct JointCommandSender {}

impl JointCommandSender {
    pub fn new() -> Self {
        Self {}
    }
}

} // verus!
