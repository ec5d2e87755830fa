//! Which obstacles the two chest sonars report, from their filtered distances.
//!
//! Distances are in millimetres.
use vstd::prelude::*;

verus! {

#[derive(Clone, Copy, Debug, PartialEq, Eq, Structural)]
pub enum FallState {
    Upright,
    Falling,
    Fallen,
    StandingUp,
}

/// Where obstacles are reported: one straight ahead, one on each side, one on
/// a side, or none.
#[derive(Clone, Copy, Debug, PartialEq, Eq, Structural)]
pub enum SonarObstaclePlacement {
    Middle,
    LeftAndRight,
    Left,
    Right,
    NoObstacle,
}

/// A filtered distance is trusted when it lies in `minimal..maximal`.
pub open spec fn is_reliable(distance: i32, minimal: i32, maximal: i32) -> bool {
    minimal <= distance < maximal
}

/// While upright, each sonar with a reliable distance reports an obstacle on
/// its side; two reports closer together than `middle_merge_threshold` merge
/// into one straight ahead. Otherwise nothing is reported.
pub open spec fn placement(
    fall_state: FallState,
    left: i32,
    right: i32,
    minimal: i32,
    maximal: i32,
    middle_merge_threshold: i32,
) -> SonarObstaclePlacement {
    let on_left = is_reliable(left, minimal, maximal);
    let on_right = is_reliable(right, minimal, maximal);
    if fall_state != FallState::Upright {
        SonarObstaclePlacement::NoObstacle
    } else if on_left && on_right {
        if -middle_merge_threshold < left - right < middle_merge_threshold {
            SonarObstaclePlacement::Middle
        } else {
            SonarObstaclePlacement::LeftAndRight
        }
    } else if on_left {
        SonarObstaclePlacement::Left
    } else if on_right {
        SonarObstaclePlacement::Right
    } else {
        SonarObstaclePlacement::NoObstacle
    }
}

pub fn is_reliable_distance(distance: i32, minimal: i32, maximal: i32) -> (r: bool)
    ensures
        r == is_reliable(distance, minimal, maximal),
{
    minimal <= distance && distance < maximal
}

/// Decides where the sonars report obstacles from the filtered left and right
/// distances, the reliable range `minimal..maximal` and the merge threshold.
pub fn place_sonar_obstacles(
    fall_state: FallState,
    left: i32,
    right: i32,
    minimal: i32,
    maximal: i32,
    middle_merge_threshold: i32,
) -> (r: SonarObstaclePlacement)
    ensures
        r == placement(fall_state, left, right, minimal, maximal, middle_merge_threshold),
{
    let on_left = is_reliable_distance(left, minimal, maximal);
    let on_right = is_reliable_distance(right, minimal, maximal);
    match fall_state {
        FallState::Upright => {
            if on_left && on_right {
                let gap = left as i64 - right as i64;
                let threshold = middle_merge_threshold as i64;
                if -threshold < gap && gap < threshold {
                    SonarObstaclePlacement::Middle
                } else {
                    SonarObstaclePlacement::LeftAndRight
                }
            } else if on_left {
                SonarObstaclePlacement::Left
            } else if on_right {
                SonarObstaclePlacement::Right
            } else {
                SonarObstaclePlacement::NoObstacle
            }
        },
        _ => SonarObstaclePlacement::NoObstacle,
    }
}

} // verus!
