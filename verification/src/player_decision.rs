//! Actions a player may choose during a match.
use vstd::prelude::*;

verus! {

/// An action a player may choose.
#[derive(Debug, Clone, Copy, PartialEq, Eq, Hash, Structural)]
pub enum PlayerAction {
    Pass,
    ShortPass,
    LongPass,
    ThroughBall,
    Cross,
    Shoot,
    Dribble,
    /// Take a defender on one against one (unlike a plain carry).
    TakeOn,
    Hold,
    Tackle,
    Header,
}

} // verus!
