use perspective_grid::calibration::{
    field_of_view_tangent, CameraMatrices, CameraMatrix, CameraPosition, HalfAngleTangent,
};
use perspective_grid::image::{Horizon, ImageSize};

fn field_of_view(tangent: HalfAngleTangent) -> f32 {
    2.0 * (tangent.opposite as f64 / tangent.adjacent as f64).atan() as f32
}

fn millionths(value: f32) -> i32 {
    (value as f64 * 1_000_000.0).round() as i32
}

#[test]
fn check_field_of_view_calculation() {
    // Assumes normalized values
    fn old_fov(focal_length: f32) -> f32 {
        2.0 * (0.5 / focal_length).atan()
    }

    let focals = [0.63f32, 1.34];
    let image_size = [1u32, 1];
    let image_size_abs = [640u32, 480];

    for axis in 0..2 {
        let normalized = field_of_view_tangent(millionths(focals[axis]) as i64, image_size[axis]);
        let focal_scaled = millionths(focals[axis]) as i64 * image_size_abs[axis] as i64;
        let scaled = field_of_view_tangent(focal_scaled, image_size_abs[axis]);
        assert!((old_fov(focals[axis]) - field_of_view(normalized)).abs() < 1e-6);
        assert!((old_fov(focals[axis]) - field_of_view(scaled)).abs() < 1e-6);
    }
}

#[test]
fn field_of_view_ratio_is_exact() {
    assert_eq!(
        field_of_view_tangent(403_200_000, 640),
        HalfAngleTangent { opposite: 320_000_000, adjacent: 403_200_000 }
    );
    let normalized = field_of_view_tangent(630_000, 1);
    assert_eq!(normalized, HalfAngleTangent { opposite: 500_000, adjacent: 630_000 });
    assert_eq!(
        320_000_000i128 * normalized.adjacent as i128,
        normalized.opposite as i128 * 403_200_000i128
    );
}

#[test]
fn intrinsics_scale_with_image_size() {
    let intrinsics = CameraMatrix::from_normalized_focal_and_center(
        630_000,
        1_340_000,
        500_000,
        250_000,
        ImageSize { width: 640, height: 480 },
        Horizon::default(),
    );
    assert_eq!(intrinsics.focal_length_x, 403_200_000);
    assert_eq!(intrinsics.focal_length_y, 643_200_000);
    assert_eq!(intrinsics.optical_center_x, 320_000_000);
    assert_eq!(intrinsics.optical_center_y, 120_000_000);
    assert_eq!(
        intrinsics.field_of_view_x,
        HalfAngleTangent { opposite: 320_000_000, adjacent: 403_200_000 }
    );
    assert_eq!(
        intrinsics.field_of_view_y,
        HalfAngleTangent { opposite: 240_000_000, adjacent: 643_200_000 }
    );
    assert_eq!(
        intrinsics.matrix(),
        [
            [403_200_000, 0, 320_000_000, 0],
            [0, 643_200_000, 120_000_000, 0],
            [0, 0, 1_000_000, 0],
        ]
    );
}

#[test]
fn out_of_range_calibration_is_not_rejected() {
    let intrinsics = CameraMatrix::from_normalized_focal_and_center(
        -2_000_000,
        3_000_000,
        0,
        -1,
        ImageSize { width: 10, height: 10 },
        Horizon::default(),
    );
    assert_eq!(intrinsics.focal_length_x, -20_000_000);
    assert_eq!(intrinsics.focal_length_y, 30_000_000);
    assert_eq!(intrinsics.optical_center_y, -10);
}

#[test]
fn field_of_view_of_both_axes() {
    let (x, y) = CameraMatrix::calculate_field_of_view(403_200_000, 643_200_000, ImageSize { width: 640, height: 480 });
    assert_eq!(x, HalfAngleTangent { opposite: 320_000_000, adjacent: 403_200_000 });
    assert_eq!(y, HalfAngleTangent { opposite: 240_000_000, adjacent: 643_200_000 });
}

#[test]
fn camera_matrices_indexed_by_position() {
    let horizon = Horizon { left_horizon_y: -5, right_horizon_y: 7 };
    let top = CameraMatrix::from_normalized_focal_and_center(
        630_000,
        1_340_000,
        500_000,
        500_000,
        ImageSize { width: 640, height: 480 },
        horizon,
    );
    let bottom = CameraMatrix::default();
    let matrices = CameraMatrices { top, bottom };
    assert_eq!(*matrices.index(CameraPosition::Top), top);
    assert_eq!(*matrices.index(CameraPosition::Bottom), bottom);
    assert_eq!(matrices.index(CameraPosition::Top).horizon, horizon);
}
