//! Walking commands that pull the arms in when an obstacle is close beside the robot.
//!
//! Ground positions and lengths are in millimetres, angles in milliradians.
use vstd::prelude::*;

verus! {

/// How far, in millimetres along either ground axis, an obstacle may be from
/// the robot and still be in the way of its arms.
pub const ARM_CLEARANCE: i64 = 500;

/// A point on the ground, relative to the robot, in millimetres.
#[derive(Clone, Copy, Debug, PartialEq, Eq, Structural)]
pub struct GroundPoint {
    pub x: i64,
    pub y: i64,
}

#[derive(Clone, Copy, Debug, PartialEq, Eq, Structural)]
pub enum Side {
    Left,
    Right,
}

#[derive(Clone, Copy, Debug, PartialEq, Eq, Structural)]
pub enum ObstacleKind {
    Ball,
    GoalPost,
    Robot,
    Unknown,
}

#[derive(Clone, Copy, Debug, PartialEq, Eq, Structural)]
pub struct Obstacle {
    pub position: GroundPoint,
    pub kind: ObstacleKind,
    pub radius_at_hip_height: i64,
    pub radius_at_foot_height: i64,
}

#[derive(Clone, Copy, Debug, PartialEq, Eq, Structural)]
pub enum ArmMotion {
    Swing,
    PullTight,
}

#[derive(Clone, Copy, Debug, PartialEq, Eq, Structural)]
pub enum HeadMotion {
    ZeroAngles,
    Center,
    LookAround,
    SearchForLostBall,
    LookAt { target: GroundPoint },
    Unstiff,
}

#[derive(Clone, Copy, Debug, PartialEq, Eq, Structural)]
pub enum OrientationMode {
    AlignWithPath,
    /// Face the given orientation, in milliradians.
    Override(i64),
}

/// One piece of a planned path.
#[derive(Clone, Copy, Debug, PartialEq, Eq, Structural)]
pub enum PathSegment {
    LineSegment { start: GroundPoint, end: GroundPoint },
    Arc { center: GroundPoint, radius: i64, start: GroundPoint, end: GroundPoint, clockwise: bool },
}

#[derive(Clone, Debug)]
pub enum MotionCommand {
    Stand { head: HeadMotion },
    Walk {
        head: HeadMotion,
        orientation_mode: OrientationMode,
        path: Vec<PathSegment>,
        left_arm: ArmMotion,
        right_arm: ArmMotion,
    },
}

/// The extent of the field, in millimetres.
#[derive(Clone, Copy, Debug, PartialEq, Eq, Structural)]
pub struct FieldDimensions {
    pub length: i64,
    pub width: i64,
    pub border_strip_width: i64,
}

/// Path planning settings: lengths in millimetres, factors and weights in thousandths.
#[derive(Clone, Copy, Debug, PartialEq, Eq, Structural)]
pub struct PathPlanningParameters {
    pub rotation_penalty_factor: i64,
    pub robot_radius_at_hip_height: i64,
    pub robot_radius_at_foot_height: i64,
    pub minimum_robot_radius_at_foot_height: i64,
    pub ball_obstacle_radius: i64,
    pub field_border_weight: i64,
}

/// The obstacle is on the given side of the robot (a point straight ahead
/// counts as left) and within the arm clearance along both axes.
pub open spec fn obstacle_beside(obstacle: Obstacle, side: Side) -> bool {
    let on_side = match side {
        Side::Left => obstacle.position.y >= 0,
        Side::Right => obstacle.position.y < 0,
    };
    on_side && -ARM_CLEARANCE < obstacle.position.x < ARM_CLEARANCE && -ARM_CLEARANCE
        < obstacle.position.y < ARM_CLEARANCE
}

/// The arm on `side` is pulled tight if any obstacle is beside it, else it swings.
pub open spec fn arm_motion(obstacles: Seq<Obstacle>, side: Side) -> ArmMotion {
    if exists|i: int| 0 <= i < obstacles.len() && obstacle_beside(#[trigger] obstacles[i], side) {
        ArmMotion::PullTight
    } else {
        ArmMotion::Swing
    }
}

/// Plans walking for one cycle from the field, the obstacles around the robot,
/// the planning settings and the command of the last cycle.
pub struct WalkPathPlanner<'cycle> {
    pub field_dimensions: &'cycle FieldDimensions,
    pub obstacles: &'cycle [Obstacle],
    pub parameters: &'cycle PathPlanningParameters,
    pub last_motion_command: &'cycle MotionCommand,
}

impl<'cycle> WalkPathPlanner<'cycle> {
    pub fn new(
        field_dimensions: &'cycle FieldDimensions,
        obstacles: &'cycle [Obstacle],
        parameters: &'cycle PathPlanningParameters,
        last_motion_command: &'cycle MotionCommand,
    ) -> (r: Self)
        ensures
            r.field_dimensions == field_dimensions,
            r.obstacles@ == obstacles@,
            r.parameters == parameters,
            r.last_motion_command == last_motion_command,
    {
        Self { field_dimensions, obstacles, parameters, last_motion_command }
    }

    /// A walk along `path`, with each arm pulled tight where an obstacle is
    /// beside it.
    pub fn walk_with_obstacle_avoiding_arms(
        &self,
        head: HeadMotion,
        orientation_mode: OrientationMode,
        path: Vec<PathSegment>,
    ) -> (r: MotionCommand)
        ensures
            r matches MotionCommand::Walk { head: h, orientation_mode: o, path: p, left_arm, right_arm }
                && h == head && o == orientation_mode && p@ == path@
                && left_arm == arm_motion(self.obstacles@, Side::Left)
                && right_arm == arm_motion(self.obstacles@, Side::Right),
    {
        MotionCommand::Walk {
            head,
            orientation_mode,
            path,
            left_arm: self.arm_motion_with_obstacles(Side::Left),
            right_arm: self.arm_motion_with_obstacles(Side::Right),
        }
    }

    /// The motion of the arm on `side`.
    pub fn arm_motion_with_obstacles(&self, side: Side) -> (r: ArmMotion)
        ensures
            r == arm_motion(self.obstacles@, side),
    {
        let mut i: usize = 0;
        while i < self.obstacles.len()
            invariant
                i <= self.obstacles.len(),
                forall|k: int| 0 <= k < i ==> !obstacle_beside(#[trigger] self.obstacles@[k], side),
            decreases self.obstacles.len() - i,
        {
            let position = self.obstacles[i].position;
            let on_side = match side {
                Side::Left => position.y >= 0,
                Side::Right => position.y < 0,
            };
            if on_side && -ARM_CLEARANCE < position.x && position.x < ARM_CLEARANCE
                && -ARM_CLEARANCE < position.y && position.y < ARM_CLEARANCE {
                assert(obstacle_beside(self.obstacles@[i as int], side));
                return ArmMotion::PullTight;
            }
            i += 1;
        }
        ArmMotion::Swing
    }
}

} // verus!
