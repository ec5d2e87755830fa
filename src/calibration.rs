//! The camera matrix: pinhole intrinsics from a device-independent
//! calibration, the field of view, and the horizon.
//!
//! Normalized calibration values are fractions of the image size, held in
//! millionths; pixel-space intrinsics are held in millionths of a pixel, so that
//! scaling by the image size is exact.
use vstd::prelude::*;
use crate::image::{Horizon, ImageSize};

verus! {

/// Fixed-point units per whole of a normalized value, and per pixel of an intrinsic.
pub const NORMALIZED: i64 = 1_000_000;

/// The tangent of half a field of view, as the ratio `opposite / adjacent`:
/// half the image dimension over the focal length, both in millionths of a pixel.
#[derive(Clone, Copy, Debug, Default, PartialEq, Eq, Structural)]
pub struct HalfAngleTangent {
    pub opposite: i64,
    pub adjacent: i64,
}

/// The half-angle tangent of a field of view spanning `dimension` pixels at the
/// focal length `focal_length` (in millionths of a pixel).
pub open spec fn half_angle_tangent(focal_length: int, dimension: int) -> HalfAngleTangent {
    HalfAngleTangent {
        opposite: (dimension * (NORMALIZED / 2)) as i64,
        adjacent: focal_length as i64,
    }
}

/// The two tangents describe the same angle.
pub open spec fn same_angle(a: HalfAngleTangent, b: HalfAngleTangent) -> bool {
    a.opposite * b.adjacent == b.opposite * a.adjacent
}

/// A normalized value scaled to an image dimension.
pub open spec fn scaled(normalized: i32, dimension: u32) -> int {
    normalized * dimension
}

/// The field of view along one axis: the field of view of an image `dimension`
/// pixels wide seen at `focal_length` (in millionths of a pixel) is twice the
/// arc tangent of the returned ratio.
pub fn field_of_view_tangent(focal_length: i64, dimension: u32) -> (r: HalfAngleTangent)
    ensures
        r == half_angle_tangent(focal_length as int, dimension as int),
{
    HalfAngleTangent { opposite: dimension as i64 * (NORMALIZED / 2), adjacent: focal_length }
}

/// The projection model of one camera, as far as the sampling grid reads it:
/// pixel-space intrinsics, field of view, horizon and image size.
#[derive(Clone, Copy, Debug, Default, PartialEq, Eq, Structural)]
pub struct CameraMatrix {
    pub focal_length_x: i64,
    pub focal_length_y: i64,
    pub optical_center_x: i64,
    pub optical_center_y: i64,
    pub field_of_view_x: HalfAngleTangent,
    pub field_of_view_y: HalfAngleTangent,
    pub horizon: Horizon,
    pub image_size: ImageSize,
}

impl CameraMatrix {
    /// Scales a normalized focal length and optical center (fractions of the
    /// image size, in millionths) element-wise by the image size, and derives the
    /// field of view from the scaled focal length. The fractions are not checked.
    /// `horizon` is where the ground plane's horizon falls for this camera's pose.
    pub fn from_normalized_focal_and_center(
        focal_length_x: i32,
        focal_length_y: i32,
        optical_center_x: i32,
        optical_center_y: i32,
        image_size: ImageSize,
        horizon: Horizon,
    ) -> (r: CameraMatrix)
        ensures
            r.focal_length_x == scaled(focal_length_x, image_size.width),
            r.focal_length_y == scaled(focal_length_y, image_size.height),
            r.optical_center_x == scaled(optical_center_x, image_size.width),
            r.optical_center_y == scaled(optical_center_y, image_size.height),
            r.field_of_view_x == half_angle_tangent(r.focal_length_x as int, image_size.width as int),
            r.field_of_view_y == half_angle_tangent(r.focal_length_y as int, image_size.height as int),
            r.horizon == horizon,
            r.image_size == image_size,
    {
        proof {
            lemma_scaled_fits(focal_length_x, image_size.width);
            lemma_scaled_fits(focal_length_y, image_size.height);
            lemma_scaled_fits(optical_center_x, image_size.width);
            lemma_scaled_fits(optical_center_y, image_size.height);
        }
        let fx = focal_length_x as i64 * image_size.width as i64;
        let fy = focal_length_y as i64 * image_size.height as i64;
        let cx = optical_center_x as i64 * image_size.width as i64;
        let cy = optical_center_y as i64 * image_size.height as i64;
        let (field_of_view_x, field_of_view_y) = Self::calculate_field_of_view(fx, fy, image_size);
        CameraMatrix {
            focal_length_x: fx,
            focal_length_y: fy,
            optical_center_x: cx,
            optical_center_y: cy,
            field_of_view_x,
            field_of_view_y,
            horizon,
            image_size,
        }
    }

    /// The field of view along each axis, from the focal lengths in pixel space.
    pub fn calculate_field_of_view(focal_length_x: i64, focal_length_y: i64, image_size: ImageSize) -> (r: (
        HalfAngleTangent,
        HalfAngleTangent,
    ))
        ensures
            r.0 == half_angle_tangent(focal_length_x as int, image_size.width as int),
            r.1 == half_angle_tangent(focal_length_y as int, image_size.height as int),
    {
        (field_of_view_tangent(focal_length_x, image_size.width), field_of_view_tangent(focal_length_y, image_size.height))
    }

    /// The 3×4 pinhole matrix with zero skew, in millionths of a pixel (the
    /// homogeneous row scaled alike): `[[fx, 0, cx, 0], [0, fy, cy, 0], [0, 0, 1, 0]]`.
    pub fn matrix(&self) -> (r: [[i64; 4]; 3])
        ensures
            r[0]@ == seq![self.focal_length_x, 0i64, self.optical_center_x, 0i64],
            r[1]@ == seq![0i64, self.focal_length_y, self.optical_center_y, 0i64],
            r[2]@ == seq![0i64, 0i64, NORMALIZED, 0i64],
    {
        let r = [
            [self.focal_length_x, 0, self.optical_center_x, 0],
            [0, self.focal_length_y, self.optical_center_y, 0],
            [0, 0, NORMALIZED, 0],
        ];
        assert(r[0]@ =~= seq![self.focal_length_x, 0i64, self.optical_center_x, 0i64]);
        assert(r[1]@ =~= seq![0i64, self.focal_length_y, self.optical_center_y, 0i64]);
        assert(r[2]@ =~= seq![0i64, 0i64, NORMALIZED, 0i64]);
        r
    }
}

proof fn lemma_scaled_fits(normalized: i32, dimension: u32)
    ensures
        i64::MIN <= scaled(normalized, dimension) <= i64::MAX,
{
    assert(-0x8000_0000 * 0xffff_ffff <= normalized * dimension <= 0x7fff_ffff * 0xffff_ffff)
        by (nonlinear_arith)
        requires
            -0x8000_0000 <= normalized <= 0x7fff_ffff,
            0 <= dimension <= 0xffff_ffff,
    ;
}

/// The field of view does not depend on whether the focal length is given
/// normalized (for an image one pixel wide) or scaled to the image: scaling
/// both the focal length and the image dimension by the same size keeps the
/// angle.
pub proof fn lemma_field_of_view_scale_invariant(focal_length: i32, dimension: u32)
    ensures
        same_angle(
            half_angle_tangent(scaled(focal_length, dimension), dimension as int),
            half_angle_tangent(scaled(focal_length, 1), 1),
        ),
{
    lemma_scaled_fits(focal_length, dimension);
    let f = focal_length as int;
    let d = dimension as int;
    assert((d * 500_000) * f == 500_000 * (f * d)) by (nonlinear_arith);
}


#[derive(Clone, Copy, Debug, PartialEq, Eq, Structural)]
pub enum CameraPosition {
    Top,
    Bottom,
}

/// One camera matrix for each of the two cameras.
#[derive(Clone, Copy, Debug, Default, PartialEq, Eq, Structural)]
pub struct CameraMatrices {
    pub top: CameraMatrix,
    pub bottom: CameraMatrix,
}

impl CameraMatrices {
    /// The matrix of the camera at `position`.
    pub fn index(&self, position: CameraPosition) -> (r: &CameraMatrix)
        ensures
            *r == (match position {
                CameraPosition::Top => self.top,
                CameraPosition::Bottom => self.bottom,
            }),
    {
        match position {
            CameraPosition::Top => &self.top,
            CameraPosition::Bottom => &self.bottom,
        }
    }
}

} // verus!
