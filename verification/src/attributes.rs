//! A player's ratings, each from 0 to 99.
use vstd::prelude::*;

verus! {

/// Ratings of a player (0-99).
#[derive(Debug, Clone, Copy, PartialEq, Eq, Structural)]
pub struct PlayerAttributes {
    pub acceleration: u8,
    pub aggression: u8,
    pub agility: u8,
    pub anticipation: u8,
    pub balance: u8,
    pub bravery: u8,
    pub composure: u8,
    pub concentration: u8,
    pub corners: u8,
    pub crossing: u8,
    pub decisions: u8,
    pub determination: u8,
    pub dribbling: u8,
    pub finishing: u8,
    pub first_touch: u8,
    pub flair: u8,
    pub heading: u8,
    pub jumping: u8,
    pub leadership: u8,
    pub long_shots: u8,
    pub long_throws: u8,
    pub marking: u8,
    pub natural_fitness: u8,
    pub off_the_ball: u8,
    pub pace: u8,
    pub passing: u8,
    pub penalty_taking: u8,
    pub positioning: u8,
    pub stamina: u8,
    pub strength: u8,
    pub tackling: u8,
    pub teamwork: u8,
    pub technique: u8,
    pub vision: u8,
    pub work_rate: u8,
    pub gk_aerial_reach: u8,
    pub gk_command_of_area: u8,
    pub gk_handling: u8,
    pub gk_kicking: u8,
    pub gk_one_on_ones: u8,
    pub gk_punching: u8,
    pub gk_reflexes: u8,
    pub gk_rushing_out: u8,
    pub gk_throwing: u8,
}

/// The value every rating of an average player has.
pub const AVERAGE_RATING: u8 = 50;

impl PlayerAttributes {
    /// A player rated `v` in everything.
    pub fn uniform(v: u8) -> (r: PlayerAttributes)
        ensures
            r == uniform_attributes(v),
    {
        PlayerAttributes {
            acceleration: v,
            aggression: v,
            agility: v,
            anticipation: v,
            balance: v,
            bravery: v,
            composure: v,
            concentration: v,
            corners: v,
            crossing: v,
            decisions: v,
            determination: v,
            dribbling: v,
            finishing: v,
            first_touch: v,
            flair: v,
            heading: v,
            jumping: v,
            leadership: v,
            long_shots: v,
            long_throws: v,
            marking: v,
            natural_fitness: v,
            off_the_ball: v,
            pace: v,
            passing: v,
            penalty_taking: v,
            positioning: v,
            stamina: v,
            strength: v,
            tackling: v,
            teamwork: v,
            technique: v,
            vision: v,
            work_rate: v,
            gk_aerial_reach: v,
            gk_command_of_area: v,
            gk_handling: v,
            gk_kicking: v,
            gk_one_on_ones: v,
            gk_punching: v,
            gk_reflexes: v,
            gk_rushing_out: v,
            gk_throwing: v,
        }
    }
}

/// The ratings of a player rated `v` in everything.
pub open spec fn uniform_attributes(v: u8) -> PlayerAttributes {
    PlayerAttributes {
        acceleration: v,
        aggression: v,
        agility: v,
        anticipation: v,
        balance: v,
        bravery: v,
        composure: v,
        concentration: v,
        corners: v,
        crossing: v,
        decisions: v,
        determination: v,
        dribbling: v,
        finishing: v,
        first_touch: v,
        flair: v,
        heading: v,
        jumping: v,
        leadership: v,
        long_shots: v,
        long_throws: v,
        marking: v,
        natural_fitness: v,
        off_the_ball: v,
        pace: v,
        passing: v,
        penalty_taking: v,
        positioning: v,
        stamina: v,
        strength: v,
        tackling: v,
        teamwork: v,
        technique: v,
        vision: v,
        work_rate: v,
        gk_aerial_reach: v,
        gk_command_of_area: v,
        gk_handling: v,
        gk_kicking: v,
        gk_one_on_ones: v,
        gk_punching: v,
        gk_reflexes: v,
        gk_rushing_out: v,
        gk_throwing: v,
    }
}

impl Default for PlayerAttributes {
    /// An average player: every rating 50.
    fn default() -> (r: PlayerAttributes)
        ensures
            r == uniform_attributes(AVERAGE_RATING),
    {
        PlayerAttributes::uniform(AVERAGE_RATING)
    }
}

} // verus!
