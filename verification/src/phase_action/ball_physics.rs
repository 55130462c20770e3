//! Flight shapes of the ball and the kinds of restarts.
use vstd::prelude::*;
use crate::phase_action::action_types::{PassType, ShotType};
use crate::geometry::Coord10;

verus! {

/// Height profile of a ball in flight.
#[derive(Debug, Clone, Copy, PartialEq, Eq, Hash, Structural)]
pub enum HeightCurve {
    /// Along the ground.
    Ground,
    /// Up to about 1 m.
    LowArc,
    /// Up to about 3 m.
    MediumArc,
    /// Up to about 10 m.
    HighArc,
    /// Nearly straight and flat (power shots).
    Line,
}

impl HeightCurve {
    /// Flight shape of a pass: ground, through and back passes stay on the
    /// ground, lofted passes take a medium arc, crosses a high arc.
    pub fn from_pass_type(pass_type: PassType) -> (r: HeightCurve)
        ensures
            r == match pass_type {
                PassType::Ground => HeightCurve::Ground,
                PassType::Lofted => HeightCurve::MediumArc,
                PassType::ThroughBall => HeightCurve::Ground,
                PassType::Cross => HeightCurve::HighArc,
                PassType::BackPass => HeightCurve::Ground,
            },
    {
        match pass_type {
            PassType::Ground => HeightCurve::Ground,
            PassType::Lofted => HeightCurve::MediumArc,
            PassType::ThroughBall => HeightCurve::Ground,
            PassType::Cross => HeightCurve::HighArc,
            PassType::BackPass => HeightCurve::Ground,
        }
    }

    /// Flight shape of a shot: low arc for normal and one-touch shots, medium
    /// arc for finesse shots and headers, a line for power shots and volleys,
    /// a high arc for chips.
    pub fn from_shot_type(shot_type: ShotType) -> (r: HeightCurve)
        ensures
            r == match shot_type {
                ShotType::Normal => HeightCurve::LowArc,
                ShotType::Finesse => HeightCurve::MediumArc,
                ShotType::Power => HeightCurve::Line,
                ShotType::Chip => HeightCurve::HighArc,
                ShotType::Header => HeightCurve::MediumArc,
                ShotType::Volley => HeightCurve::Line,
                ShotType::OneTouch => HeightCurve::LowArc,
            },
    {
        match shot_type {
            ShotType::Normal => HeightCurve::LowArc,
            ShotType::Finesse => HeightCurve::MediumArc,
            ShotType::Power => HeightCurve::Line,
            ShotType::Chip => HeightCurve::HighArc,
            ShotType::Header => HeightCurve::MediumArc,
            ShotType::Volley => HeightCurve::Line,
            ShotType::OneTouch => HeightCurve::LowArc,
        }
    }
}

/// How play restarts.
#[derive(Debug, Clone, Copy, PartialEq, Eq, Hash, Structural)]
pub enum RestartType {
    KickOff,
    GoalKick,
    Corner,
    ThrowIn,
    FreeKick,
    PenaltyKick,
}


/// The ball lies between the posts of a goal line: within 3.66 m of the
/// middle of a pitch `field_height` (0.1 m) wide.
pub open spec fn between_posts(y: int, field_height: int) -> bool {
    10 * field_height - 732 <= 20 * y <= 10 * field_height + 732
}

/// How play restarts with the ball at `p` (0.1 m) on a pitch `field_width`
/// long and `field_height` wide: off a touchline, a throw-in; over a goal
/// line outside the posts, a corner if the defending team touched it last
/// (the away team at the home goal line, x < 0; the home team at the other)
/// and a goal kick otherwise; no restart while the ball is in.
pub open spec fn restart_for(p: Coord10, field_width: int, field_height: int, last_touch_team: Option<u32>) -> Option<
    RestartType,
> {
    if p.y < 0 || p.y > field_height {
        Some(RestartType::ThrowIn)
    } else if p.x < 0 && !between_posts(p.y as int, field_height) {
        Some(if last_touch_team == Some(1u32) { RestartType::Corner } else { RestartType::GoalKick })
    } else if p.x > field_width && !between_posts(p.y as int, field_height) {
        Some(if last_touch_team == Some(0u32) { RestartType::Corner } else { RestartType::GoalKick })
    } else {
        None
    }
}

/// The restart, if any, with the ball at `position`, as `restart_for`
/// states it.
pub fn check_boundary(position: Coord10, field_width: i32, field_height: i32, last_touch_team: Option<u32>) -> (r: Option<
    RestartType,
>)
    ensures
        r == restart_for(position, field_width as int, field_height as int, last_touch_team),
{
    let x = position.x as i64;
    let y = position.y as i64;
    let h = field_height as i64;
    if y < 0 || y > h {
        return Some(RestartType::ThrowIn);
    }
    let in_goal_area = 10 * h - 732 <= 20 * y && 20 * y <= 10 * h + 732;
    if x < 0 && !in_goal_area {
        let home_goal_restart = match last_touch_team {
            Some(t) => if t == 1 {
                RestartType::Corner
            } else {
                RestartType::GoalKick
            },
            None => RestartType::GoalKick,
        };
        return Some(home_goal_restart);
    }
    if x > field_width as i64 && !in_goal_area {
        let away_goal_restart = match last_touch_team {
            Some(t) => if t == 0 {
                RestartType::Corner
            } else {
                RestartType::GoalKick
            },
            None => RestartType::GoalKick,
        };
        return Some(away_goal_restart);
    }
    None
}

} // verus!
