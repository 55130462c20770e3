//! Pieces of the plan decided for the next 250 ms of play.
use vstd::prelude::*;

verus! {

/// An event settled while deciding the plan (a goal, a foul, ...).
#[derive(Debug, Clone)]
pub struct PlannedEvent {
    pub event_type: String,
    pub timestamp_ms: u64,
}

/// What a player's movement aims at.
#[derive(Debug, Clone, Copy, PartialEq, Eq, Structural)]
pub enum PlayerPlanKind {
    /// Stay in position.
    IdleHold,
    /// Move to a target.
    MoveTo,
    /// Close down the ball carrier.
    PressOwner,
    /// Shadow an opponent.
    MarkOpponent,
    /// Block a passing lane.
    InterceptLane,
    /// Support the ball carrier.
    SupportCarrier,
}

} // verus!
