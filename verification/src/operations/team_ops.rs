//! Queries on a team.
//!
//! The home team (players 0-10) defends the left goal and attacks to the
//! right; the away team (11-21) the other way round.
use vstd::prelude::*;
use crate::geometry::{Ball, Coord10};
use crate::operations::ball_ops::{box_width_contains, in_penalty_area};

verus! {

/// Third of the pitch where the ball is, seen from a team.
#[derive(Debug, Clone, Copy, PartialEq, Eq, Structural)]
pub enum TeamBallZone {
    DefendingThird,
    MiddleThird,
    AttackingThird,
}

/// The third of the pitch holding `x` (0.1 m), seen from the home or the away
/// team: the home team's defending third is short of 35 m, its attacking third
/// beyond 70 m; for the away team the other way round.
pub open spec fn zone_of(x: i32, is_home: bool) -> TeamBallZone {
    if is_home {
        if x < 350 {
            TeamBallZone::DefendingThird
        } else if x > 700 {
            TeamBallZone::AttackingThird
        } else {
            TeamBallZone::MiddleThird
        }
    } else {
        if x > 700 {
            TeamBallZone::DefendingThird
        } else if x < 350 {
            TeamBallZone::AttackingThird
        } else {
            TeamBallZone::MiddleThird
        }
    }
}

/// Queries on one team.
pub struct TeamOps<'a> {
    is_home: bool,
    ball: &'a Ball,
    positions: &'a [Coord10; 22],
    ball_owner: Option<u8>,
}

impl<'a> TeamOps<'a> {
    pub closed spec fn home(self) -> bool {
        self.is_home
    }

    pub closed spec fn ball(self) -> Ball {
        *self.ball
    }

    pub closed spec fn pos(self) -> Seq<Coord10> {
        self.positions@
    }

    pub closed spec fn owner(self) -> Option<u8> {
        self.ball_owner
    }

    pub fn new(is_home: bool, ball: &'a Ball, positions: &'a [Coord10; 22], ball_owner: Option<u8>) -> (r:
        TeamOps<'a>)
        ensures
            r.home() == is_home,
            r.ball() == *ball,
            r.pos() == positions@,
            r.owner() == ball_owner,
    {
        TeamOps { is_home, ball, positions, ball_owner }
    }

    /// The team's player indices: 0..11 for the home team, 11..22 for the away team.
    pub fn team_indices(&self) -> (r: std::ops::Range<usize>)
        ensures
            r.start == if self.home() { 0usize } else { 11usize },
            r.end == r.start + 11,
    {
        if self.is_home {
            0..11
        } else {
            11..22
        }
    }

    /// The usual back four (goalkeeper excluded): 1-4 at home, 12-15 away.
    pub fn defender_indices(&self) -> (r: Vec<usize>)
        ensures
            r@ == if self.home() {
                seq![1usize, 2, 3, 4]
            } else {
                seq![12usize, 13, 14, 15]
            },
    {
        if self.is_home {
            vec![1, 2, 3, 4]
        } else {
            vec![12, 13, 14, 15]
        }
    }

    /// The last three outfield slots: 8-10 at home, 19-21 away.
    pub fn forward_indices(&self) -> (r: Vec<usize>)
        ensures
            r@ == if self.home() {
                seq![8usize, 9, 10]
            } else {
                seq![19usize, 20, 21]
            },
    {
        if self.is_home {
            vec![8, 9, 10]
        } else {
            vec![19, 20, 21]
        }
    }

    /// Whether a player of the team has the ball.
    pub fn has_ball(&self) -> (r: bool)
        ensures
            r == (self.owner() matches Some(o) && if self.home() { o < 11 } else { o >= 11 }),
    {
        if let Some(owner) = self.ball_owner {
            let owner_idx = owner as usize;
            if self.is_home {
                owner_idx < 11
            } else {
                owner_idx >= 11
            }
        } else {
            false
        }
    }

    /// Whether the ball is in the opponent's half (past 52.5 m for the home
    /// team, short of it for the away team).
    pub fn is_attacking(&self) -> (r: bool)
        ensures
            r == if self.home() {
                self.ball().position.x > 525
            } else {
                self.ball().position.x < 525
            },
    {
        if self.is_home {
            self.ball.position.x > 525
        } else {
            self.ball.position.x < 525
        }
    }

    /// Whether the team is not attacking.
    pub fn is_defending(&self) -> (r: bool)
        ensures
            r == !(if self.home() {
                self.ball().position.x > 525
            } else {
                self.ball().position.x < 525
            }),
    {
        !self.is_attacking()
    }

    /// The third of the pitch where the ball is, seen from the team.
    pub fn ball_zone(&self) -> (r: TeamBallZone)
        ensures
            r == zone_of(self.ball().position.x, self.home()),
    {
        let x = self.ball.position.x;
        if self.is_home {
            if x < 350 {
                TeamBallZone::DefendingThird
            } else if x > 700 {
                TeamBallZone::AttackingThird
            } else {
                TeamBallZone::MiddleThird
            }
        } else {
            if x > 700 {
                TeamBallZone::DefendingThird
            } else if x < 350 {
                TeamBallZone::AttackingThird
            } else {
                TeamBallZone::MiddleThird
            }
        }
    }

    /// Whether the ball is in the penalty area that the team defends.
    pub fn ball_in_own_box(&self) -> (r: bool)
        ensures
            r == in_penalty_area(self.ball().position, self.home()),
    {
        let p = self.ball.position;
        let in_y = box_width_contains(p.y);
        if self.is_home {
            p.x <= 165 && in_y
        } else {
            p.x >= 885 && in_y
        }
    }

    /// Whether the ball is in the penalty area that the team attacks.
    pub fn ball_in_opponent_box(&self) -> (r: bool)
        ensures
            r == in_penalty_area(self.ball().position, !self.home()),
    {
        let p = self.ball.position;
        let in_y = box_width_contains(p.y);
        if self.is_home {
            p.x >= 885 && in_y
        } else {
            p.x <= 165 && in_y
        }
    }
}

/// The own box and the opponent's box of a team never both hold the ball.
pub proof fn lemma_boxes_disjoint(p: Coord10, is_home: bool)
    ensures
        !(in_penalty_area(p, is_home) && in_penalty_area(p, !is_home)),
{
}

/// Attacking and defending thirds are mirror images: the home team's attacking
/// third is the away team's defending third and the other way round.
pub proof fn lemma_zones_mirror(x: i32)
    ensures
        (zone_of(x, true) == TeamBallZone::AttackingThird) <==> (zone_of(x, false)
            == TeamBallZone::DefendingThird),
        (zone_of(x, true) == TeamBallZone::DefendingThird) <==> (zone_of(x, false)
            == TeamBallZone::AttackingThird),
        (zone_of(x, true) == TeamBallZone::MiddleThird) <==> (zone_of(x, false)
            == TeamBallZone::MiddleThird),
{
}

} // verus!
