//! Pitch coordinates in tenths of a metre, the pitch's dimensions, and the ball.
//!
//! The pitch is 105 m long (x, from the home goal to the away goal) and 68 m
//! wide (y). Positions are integers in units of 0.1 m.
use vstd::prelude::*;

verus! {

/// Pitch length in 0.1 m.
pub const LENGTH_COORD10: i32 = 1050;

/// Pitch width in 0.1 m.
pub const WIDTH_COORD10: i32 = 680;

/// x of the halfway line in 0.1 m.
pub const CENTER_X_COORD10: i32 = 525;

/// y of the pitch's long axis in 0.1 m.
pub const CENTER_Y_COORD10: i32 = 340;

/// A point of the pitch in units of 0.1 m.
#[derive(Debug, Clone, Copy, PartialEq, Eq, Hash, Structural)]
pub struct Coord10 {
    pub x: i32,
    pub y: i32,
}

impl Coord10 {
    /// The centre spot.
    pub fn center() -> (r: Coord10)
        ensures
            r == center_spot(),
    {
        Coord10 { x: CENTER_X_COORD10, y: CENTER_Y_COORD10 }
    }

    pub fn new(x: i32, y: i32) -> (r: Coord10)
        ensures
            r.x == x,
            r.y == y,
    {
        Coord10 { x, y }
    }
}

/// The centre spot.
pub open spec fn center_spot() -> Coord10 {
    Coord10 { x: 525, y: 340 }
}

/// Squared distance between two points, in (0.1 m)^2.
pub open spec fn dist_sq(a: Coord10, b: Coord10) -> int {
    (a.x - b.x) * (a.x - b.x) + (a.y - b.y) * (a.y - b.y)
}

/// Squared distance between two points, in (0.1 m)^2.
pub fn distance_sq(a: Coord10, b: Coord10) -> (r: u128)
    ensures
        r == dist_sq(a, b),
{
    let dx: i128 = a.x as i128 - b.x as i128;
    let dy: i128 = a.y as i128 - b.y as i128;
    assert(dx * dx <= 0x1_0000_0000_0000_0000) by (nonlinear_arith)
        requires -0x1_0000_0000 <= dx <= 0x1_0000_0000;
    assert(dy * dy <= 0x1_0000_0000_0000_0000) by (nonlinear_arith)
        requires -0x1_0000_0000 <= dy <= 0x1_0000_0000;
    assert(dx * dx >= 0) by (nonlinear_arith);
    assert(dy * dy >= 0) by (nonlinear_arith);
    (dx * dx + dy * dy) as u128
}

/// The ball as the match state holds it.
#[derive(Debug, Clone, Copy, PartialEq, Eq, Structural)]
pub struct Ball {
    /// Index (0-21) of the player who has the ball, if any.
    pub current_owner: Option<usize>,
    /// Position of the ball on the ground plane.
    pub position: Coord10,
    /// Whether the ball is travelling after a pass or a shot.
    pub is_in_flight: bool,
    /// Height above the ground in 0.1 m.
    pub height: i16,
}

impl Default for Ball {
    /// A loose ball on the centre spot, on the ground.
    fn default() -> (r: Ball)
        ensures
            r.current_owner.is_none(),
            r.position == center_spot(),
            !r.is_in_flight,
            r.height == 0,
    {
        Ball { current_owner: None, position: Coord10::center(), is_in_flight: false, height: 0 }
    }
}

} // verus!
