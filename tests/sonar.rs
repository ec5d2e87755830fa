use perspective_grid::sonar::{is_reliable_distance, place_sonar_obstacles, FallState, SonarObstaclePlacement};

const MINIMAL: i32 = 200;
const MAXIMAL: i32 = 1200;
const MERGE: i32 = 100;

fn place(fall_state: FallState, left: i32, right: i32) -> SonarObstaclePlacement {
    place_sonar_obstacles(fall_state, left, right, MINIMAL, MAXIMAL, MERGE)
}

#[test]
fn close_readings_merge_ahead() {
    assert_eq!(place(FallState::Upright, 500, 560), SonarObstaclePlacement::Middle);
    assert_eq!(place(FallState::Upright, 560, 500), SonarObstaclePlacement::Middle);
    assert_eq!(place(FallState::Upright, 500, 600), SonarObstaclePlacement::LeftAndRight);
}

#[test]
fn one_side_reliable() {
    assert_eq!(place(FallState::Upright, 500, 1500), SonarObstaclePlacement::Left);
    assert_eq!(place(FallState::Upright, 100, 800), SonarObstaclePlacement::Right);
    assert_eq!(place(FallState::Upright, 1200, 199), SonarObstaclePlacement::NoObstacle);
}

#[test]
fn nothing_reported_unless_upright() {
    assert_eq!(place(FallState::Fallen, 500, 560), SonarObstaclePlacement::NoObstacle);
    assert_eq!(place(FallState::Falling, 500, 900), SonarObstaclePlacement::NoObstacle);
    assert_eq!(place(FallState::StandingUp, 500, 1500), SonarObstaclePlacement::NoObstacle);
}

#[test]
fn reliable_range_is_half_open() {
    assert!(is_reliable_distance(MINIMAL, MINIMAL, MAXIMAL));
    assert!(!is_reliable_distance(MAXIMAL, MINIMAL, MAXIMAL));
    assert!(is_reliable_distance(MAXIMAL - 1, MINIMAL, MAXIMAL));
}
