use perspective_grid::calibration::CameraMatrix;
use perspective_grid::candidates::{find_matching_row, generate_candidates};
use perspective_grid::image::{Circle, Horizon, ImageSize, PixelPoint, Row, PIXEL};
use perspective_grid::nodes::PerspectiveGridCandidatesProvider;
use perspective_grid::rows::{generate_rows, RadiusQuery, RowScan};
use perspective_grid::segments::{EdgeType, Intensity, ScanLine, Segment, YCbCr444};

fn segment(start: u16, end: u16) -> Segment {
    Segment {
        start,
        end,
        start_edge_type: EdgeType::ImageBorder,
        end_edge_type: EdgeType::ImageBorder,
        color: YCbCr444 { y: 0, cb: 0, cr: 0 },
        field_color: Intensity::Low,
    }
}

fn px(value: i64) -> i64 {
    value * PIXEL
}

fn three_rows() -> Vec<Row> {
    vec![
        Row { circle_radius: px(10), center_y: px(10) },
        Row { circle_radius: px(10), center_y: px(30) },
        Row { circle_radius: px(10), center_y: px(50) },
    ]
}

fn circle(x: i64, y: i64, radius: i64) -> Circle {
    Circle { center_x: px(x), center_y: px(y), radius: px(radius) }
}

/// A camera `height` metres above the ground, pitched down by `pitch`, with the
/// given focal length and optical center (pixels): the projected radius of a
/// ball of `ball_radius` metres at image row `v`.
fn pinhole_radius(height: f32, pitch: f32, focal: f32, center: f32, ball_radius: f32, v: f32) -> Option<f32> {
    let angle = pitch + ((v - center) / focal).atan();
    if angle <= 0.0 {
        return None;
    }
    let distance = height / angle.sin();
    let radius = focal * ball_radius / distance;
    if radius.is_finite() {
        Some(radius)
    } else {
        None
    }
}

fn camera(horizon: Horizon, image_size: ImageSize) -> CameraMatrix {
    CameraMatrix::from_normalized_focal_and_center(1_000_000, 1_000_000, 500_000, 500_000, image_size, horizon)
}

fn to_units(value: f32) -> i32 {
    (value * PIXEL as f32).round() as i32
}

#[test]
fn rows_non_empty() {
    let minimum_radius = to_units(5.0);
    let camera_matrix = CameraMatrix::default();
    let rows = generate_rows(
        &camera_matrix,
        ImageSize { width: 512, height: 512 },
        minimum_radius,
        to_units(42.0),
        to_units(0.05),
        |_| None,
    );
    assert!(!rows.is_empty());
}

#[test]
fn rows_spaced_correctly() {
    let image_size = ImageSize { width: 512, height: 512 };
    let pitch = std::f32::consts::PI / 4.0;
    let horizon_y = to_units(256.0 - 512.0 * pitch.tan());
    let horizon = Horizon { left_horizon_y: horizon_y, right_horizon_y: horizon_y };
    let minimum_radius = to_units(5.0);

    let camera_matrix = camera(horizon, image_size);
    let rows = generate_rows(&camera_matrix, image_size, minimum_radius, to_units(42.0), to_units(0.05), |q| {
        pinhole_radius(0.5, pitch, 512.0, 256.0, 0.05, q.y as f32 / PIXEL as f32).map(to_units)
    });

    assert!(rows.len() > 1);
    rows.iter().reduce(|previous, current| {
        println!("Previous: {previous:#?}");
        println!("Current: {current:#?}");
        let gap = (current.center_y - previous.center_y).abs() as f32 / PIXEL as f32;
        let diameter = (previous.circle_radius * 2) as f32 / PIXEL as f32;
        assert!((gap - diameter).abs() <= 0.001);
        current
    });
}

#[test]
fn candidates_correct_single_segment() {
    let rows = three_rows();
    let vertical_scan_lines = vec![ScanLine { position: 42, segments: vec![segment(20, 50)] }];
    let skip_segments: Vec<PixelPoint> = Vec::new();
    let candidates = generate_candidates(&vertical_scan_lines, &skip_segments, &rows);
    assert_eq!(candidates.candidates, vec![circle(50, 30, 10)]);
}

#[test]
fn candidates_correct_multi_segment() {
    let rows = three_rows();
    let segments = vec![segment(5, 12), segment(18, 28), segment(45, 50)];
    let vertical_scan_lines = vec![
        ScanLine { position: 0, segments: segments.clone() },
        ScanLine { position: 42, segments: segments.clone() },
        ScanLine { position: 110, segments },
    ];
    let skip_segments = vec![
        PixelPoint { x: 0, y: 18 },
        PixelPoint { x: 42, y: 5 },
        PixelPoint { x: 42, y: 45 },
        PixelPoint { x: 110, y: 5 },
        PixelPoint { x: 110, y: 18 },
    ];
    let candidates = generate_candidates(&vertical_scan_lines, &skip_segments, &rows);
    assert_eq!(
        candidates.candidates,
        vec![circle(10, 50, 10), circle(110, 50, 10), circle(50, 30, 10), circle(10, 10, 10)]
    );
}

#[test]
fn rows_never_below_minimum_radius() {
    // Radii shrink by a pixel per query: the walk stops before the first one under 20 px.
    let next = std::cell::Cell::new(60);
    let rows = generate_rows(
        &camera(Horizon { left_horizon_y: 0, right_horizon_y: 0 }, ImageSize { width: 640, height: 480 }),
        ImageSize { width: 640, height: 480 },
        px(20) as i32,
        px(42) as i32,
        50,
        |_| {
            next.set(next.get() - 1);
            Some(px(next.get()) as i32)
        },
    );
    assert!(!rows.is_empty());
    assert!(rows.iter().all(|row| row.circle_radius >= px(20)));
    assert_eq!(rows[0], Row { circle_radius: px(59), center_y: px(479) });
    assert_eq!(rows[1], Row { circle_radius: px(58), center_y: px(479 - 118) });
}

#[test]
fn rows_keep_last_radius_when_projection_fails() {
    let mut answers = vec![None, Some(px(30) as i32), None, None];
    answers.reverse();
    let answers = std::cell::RefCell::new(answers);
    let rows = generate_rows(
        &camera(Horizon { left_horizon_y: 0, right_horizon_y: 0 }, ImageSize { width: 640, height: 480 }),
        ImageSize { width: 640, height: 480 },
        px(5) as i32,
        px(42) as i32,
        50,
        |_| answers.borrow_mut().pop().flatten(),
    );
    assert_eq!(rows[0], Row { circle_radius: px(42), center_y: px(479) });
    assert_eq!(rows[1], Row { circle_radius: px(30), center_y: px(479 - 84) });
    assert_eq!(rows[2], Row { circle_radius: px(30), center_y: px(479 - 84 - 60) });
}

#[test]
fn rows_empty_when_horizon_below_image() {
    let rows = generate_rows(
        &camera(Horizon { left_horizon_y: px(600) as i32, right_horizon_y: px(600) as i32 }, ImageSize { width: 640, height: 480 }),
        ImageSize { width: 640, height: 480 },
        px(5) as i32,
        px(42) as i32,
        50,
        |_| None,
    );
    assert!(rows.is_empty());
}

#[test]
fn rows_empty_when_fallback_below_minimum() {
    let rows = generate_rows(
        &camera(Horizon::default(), ImageSize { width: 640, height: 480 }),
        ImageSize { width: 640, height: 480 },
        px(5) as i32,
        px(4) as i32,
        50,
        |_| None,
    );
    assert!(rows.is_empty());
}

#[test]
fn rows_stop_at_horizon() {
    let rows = generate_rows(
        &camera(Horizon { left_horizon_y: px(400) as i32, right_horizon_y: px(400) as i32 }, ImageSize { width: 640, height: 480 }),
        ImageSize { width: 640, height: 480 },
        px(5) as i32,
        px(10) as i32,
        50,
        |_| None,
    );
    let centers: Vec<i64> = rows.iter().map(|row| row.center_y).collect();
    assert_eq!(centers, vec![px(479), px(459), px(439), px(419)]);
}

#[test]
fn tilted_horizon_picks_sampling_edge_and_reads_left_height() {
    let left_higher = RowScan::new(
        Horizon { left_horizon_y: px(100) as i32, right_horizon_y: px(200) as i32 },
        ImageSize { width: 640, height: 480 },
        px(5) as i32,
        px(42) as i32,
        50,
    );
    assert_eq!(left_higher.next_query(), Some(RadiusQuery { x: 0, y: px(479) }));
    assert_eq!(left_higher.horizon_y, px(100));

    let right_higher = RowScan::new(
        Horizon { left_horizon_y: px(200) as i32, right_horizon_y: px(100) as i32 },
        ImageSize { width: 640, height: 480 },
        px(5) as i32,
        px(42) as i32,
        50,
    );
    assert_eq!(right_higher.next_query(), Some(RadiusQuery { x: px(639), y: px(479) }));
    assert_eq!(right_higher.horizon_y, px(200));
}

#[test]
fn row_scan_step_by_step() {
    let mut scan = RowScan::new(
        Horizon::default(),
        ImageSize { width: 100, height: 100 },
        px(5) as i32,
        px(42) as i32,
        50,
    );
    assert_eq!(scan.next_query(), Some(RadiusQuery { x: px(99), y: px(99) }));
    scan.advance(Some(px(20) as i32));
    assert_eq!(scan.next_query(), Some(RadiusQuery { x: px(99), y: px(59) }));
    scan.advance(Some(px(3) as i32));
    assert_eq!(scan.next_query(), None);
    assert_eq!(scan.into_rows(), vec![Row { circle_radius: px(20), center_y: px(99) }]);
}

#[test]
fn rows_repeatable() {
    let run = || {
        generate_rows(
            &camera(Horizon { left_horizon_y: px(-50) as i32, right_horizon_y: 0 }, ImageSize { width: 320, height: 240 }),
            ImageSize { width: 320, height: 240 },
            px(2) as i32,
            px(30) as i32,
            50,
            |q: RadiusQuery| Some((q.y / 20).max(1) as i32),
        )
    };
    let first = run();
    assert!(!first.is_empty());
    assert_eq!(first, run());
}

#[test]
fn candidates_repeatable() {
    let segments = vec![segment(5, 12), segment(18, 28), segment(45, 50)];
    let lines = vec![
        ScanLine { position: 3, segments: segments.clone() },
        ScanLine { position: 77, segments },
    ];
    let first = generate_candidates(&lines, &[], &three_rows());
    let second = generate_candidates(&lines, &[], &three_rows());
    assert_eq!(first.candidates.len(), 6);
    assert_eq!(first.candidates, second.candidates);
}

#[test]
fn same_cell_gives_one_candidate() {
    // Both segments fall into row 1, columns 42/20 = 2 and 59/20 = 2.
    let lines = vec![
        ScanLine { position: 42, segments: vec![segment(20, 40), segment(25, 35)] },
        ScanLine { position: 59, segments: vec![segment(22, 38)] },
    ];
    let candidates = generate_candidates(&lines, &[], &three_rows());
    assert_eq!(candidates.candidates, vec![circle(50, 30, 10)]);
}

#[test]
fn rows_without_positive_radius_never_match() {
    let rows = vec![
        Row { circle_radius: 0, center_y: px(30) },
        Row { circle_radius: -px(10), center_y: px(30) },
    ];
    let lines = vec![ScanLine { position: 42, segments: vec![segment(30, 30)] }];
    assert!(find_matching_row(&rows, &segment(30, 30)).is_none());
    assert!(generate_candidates(&lines, &[], &rows).candidates.is_empty());
}

#[test]
fn unmatched_segment_is_dropped() {
    let lines = vec![ScanLine { position: 10, segments: vec![segment(100, 120)] }];
    assert!(generate_candidates(&lines, &[], &three_rows()).candidates.is_empty());
    assert!(generate_candidates(&[], &[], &three_rows()).candidates.is_empty());
}

#[test]
fn first_matching_row_wins() {
    let rows = vec![
        Row { circle_radius: px(10), center_y: px(30) },
        Row { circle_radius: px(20), center_y: px(30) },
    ];
    assert_eq!(find_matching_row(&rows, &segment(20, 40)), Some((0, rows[0])));
    assert_eq!(find_matching_row(&rows, &segment(10, 10)), Some((1, rows[1])));
}

#[test]
fn fractional_radius_columns() {
    // A radius of 7.5 px: columns are 15 px wide; x = 31 lies in column 2,
    // whose center is 7.5 + 15 * 2 = 37.5 px.
    let rows = vec![Row { circle_radius: 7_500, center_y: px(100) }];
    let lines = vec![ScanLine { position: 31, segments: vec![segment(95, 105)] }];
    let candidates = generate_candidates(&lines, &[], &rows);
    assert_eq!(
        candidates.candidates,
        vec![Circle { center_x: 37_500, center_y: px(100), radius: 7_500 }]
    );
}

#[test]
fn provider_cycle_chains_rows_and_candidates() {
    let image_size = ImageSize { width: 100, height: 100 };
    let camera_matrix = camera(Horizon { left_horizon_y: px(40) as i32, right_horizon_y: px(40) as i32 }, image_size);
    let lines = vec![
        ScanLine { position: 5, segments: vec![segment(85, 99), segment(50, 70)] },
        ScanLine { position: 30, segments: vec![segment(90, 95)] },
    ];
    let provider = PerspectiveGridCandidatesProvider::new();
    // Radius 10 px everywhere: rows at y = 99 and 79 and 59, then 39 lies above the horizon.
    let candidates = provider.cycle(&camera_matrix, image_size, &lines, &[PixelPoint { x: 30, y: 90 }], 50, px(42) as i32, px(5) as i32, |_| {
        Some(px(10) as i32)
    });
    assert_eq!(candidates.candidates, vec![circle(10, 99, 10), circle(10, 59, 10)]);
}

#[test]
fn degenerate_inputs_give_no_rows() {
    let size = ImageSize { width: 640, height: 480 };
    let camera_matrix = camera(Horizon::default(), size);
    let answer = |_: RadiusQuery| Some(px(20) as i32);
    assert!(generate_rows(&camera_matrix, size, px(5) as i32, px(42) as i32, 0, answer).is_empty());
    assert!(generate_rows(&camera_matrix, size, px(5) as i32, px(42) as i32, -50, answer).is_empty());
    let no_height = ImageSize { width: 640, height: 0 };
    assert!(generate_rows(&camera_matrix, no_height, px(5) as i32, px(42) as i32, 50, answer).is_empty());
    let no_width = ImageSize { width: 0, height: 480 };
    assert!(generate_rows(&camera_matrix, no_width, px(5) as i32, px(42) as i32, 50, answer).is_empty());
    assert!(!generate_rows(&camera_matrix, size, px(5) as i32, px(42) as i32, 50, answer).is_empty());
}

#[test]
fn projection_answer_wins_over_fallback() {
    let size = ImageSize { width: 640, height: 480 };
    let camera_matrix = camera(Horizon { left_horizon_y: px(400) as i32, right_horizon_y: px(400) as i32 }, size);
    let rows = generate_rows(&camera_matrix, size, px(5) as i32, px(42) as i32, 50, |q: RadiusQuery| {
        if q.y == px(479) {
            Some(px(12) as i32)
        } else {
            None
        }
    });
    // The first answer replaces the fallback, and is carried on where the projection fails.
    let expected: Vec<Row> = [479, 455, 431, 407]
        .iter()
        .map(|&y| Row { circle_radius: px(12), center_y: px(y) })
        .collect();
    assert_eq!(rows, expected);
}

#[test]
fn walk_stops_at_first_small_answer() {
    let size = ImageSize { width: 640, height: 480 };
    let camera_matrix = camera(Horizon::default(), size);
    let rows = generate_rows(&camera_matrix, size, px(5) as i32, px(42) as i32, 50, |q: RadiusQuery| {
        if q.y < px(300) {
            Some(px(4) as i32)
        } else {
            Some(px(50) as i32)
        }
    });
    let centers: Vec<i64> = rows.iter().map(|row| row.center_y).collect();
    assert_eq!(centers, vec![px(479), px(379)]);
}
