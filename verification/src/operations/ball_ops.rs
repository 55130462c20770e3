//! Queries on the ball.
use vstd::prelude::*;
use crate::geometry::{Ball, Coord10};

verus! {

/// Whether `y` (0.1 m) lies across the width of a penalty area: 13.85 m to 54.15 m.
pub open spec fn in_box_width(y: i32) -> bool {
    1385 <= 10 * y <= 5415
}

/// Whether `x` (0.1 m) lies in the home penalty area's depth: at most 16.5 m.
pub open spec fn in_home_box_depth(x: i32) -> bool {
    x <= 165
}

/// Whether `x` (0.1 m) lies in the away penalty area's depth: at least 88.5 m.
pub open spec fn in_away_box_depth(x: i32) -> bool {
    x >= 885
}

/// Whether a point lies in a penalty area (the home one, on the left, or the away one).
pub open spec fn in_penalty_area(p: Coord10, home_area: bool) -> bool {
    in_box_width(p.y) && if home_area {
        in_home_box_depth(p.x)
    } else {
        in_away_box_depth(p.x)
    }
}

pub(crate) fn box_width_contains(y: i32) -> (r: bool)
    ensures
        r == in_box_width(y),
{
    1385 <= 10 * (y as i64) && 10 * (y as i64) <= 5415
}

/// Ball queries for one tick.
pub struct BallOps<'a> {
    ball: &'a Ball,
    player_positions: &'a [Coord10; 22],
}

impl<'a> BallOps<'a> {
    pub closed spec fn ball(self) -> Ball {
        *self.ball
    }

    pub closed spec fn positions(self) -> Seq<Coord10> {
        self.player_positions@
    }

    pub fn new(ball: &'a Ball, positions: &'a [Coord10; 22]) -> (r: BallOps<'a>)
        ensures
            r.ball() == *ball,
            r.positions() == positions@,
    {
        BallOps { ball, player_positions: positions }
    }

    /// Whether a player has the ball.
    pub fn is_owned(&self) -> (r: bool)
        ensures
            r == self.ball().current_owner.is_some(),
    {
        self.ball.current_owner.is_some()
    }

    /// The player who has the ball, if any.
    pub fn owner(&self) -> (r: Option<usize>)
        ensures
            r == self.ball().current_owner,
    {
        self.ball.current_owner
    }

    /// Whether the ball is travelling after a pass or a shot.
    pub fn is_in_flight(&self) -> (r: bool)
        ensures
            r == self.ball().is_in_flight,
    {
        self.ball.is_in_flight
    }

    /// The ball's position.
    pub fn position(&self) -> (r: Coord10)
        ensures
            r == self.ball().position,
    {
        self.ball.position
    }

    /// Whether the ball is in a penalty area: the home one (left, x at most
    /// 16.5 m) or the away one (right, x at least 88.5 m), y from 13.85 m to
    /// 54.15 m.
    pub fn is_in_penalty_area(&self, is_home_area: bool) -> (r: bool)
        ensures
            r == in_penalty_area(self.ball().position, is_home_area),
    {
        let p = self.ball.position;
        let in_y = box_width_contains(p.y);
        if is_home_area {
            p.x <= 165 && in_y
        } else {
            p.x >= 885 && in_y
        }
    }

    /// Whether the ball is in the attacking third of a team: beyond 70 m for
    /// the home team (attacking right), short of 35 m for the away team.
    pub fn is_in_attacking_third(&self, is_home_team: bool) -> (r: bool)
        ensures
            r == if is_home_team {
                self.ball().position.x > 700
            } else {
                self.ball().position.x < 350
            },
    {
        if is_home_team {
            self.ball.position.x > 700
        } else {
            self.ball.position.x < 350
        }
    }

    /// Whether the ball is higher than 0.5 m.
    pub fn is_aerial(&self) -> (r: bool)
        ensures
            r == (self.ball().height > 5),
    {
        self.ball.height > 5
    }
}

} // verus!
