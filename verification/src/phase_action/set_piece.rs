//! Set pieces: their kinds, tactics and phases, and the context of a penalty.
use vstd::prelude::*;

verus! {

/// Kind of set piece.
#[derive(Debug, Clone, Copy, PartialEq, Eq, Structural)]
pub enum SetPieceType {
    Corner,
    FreeKickDirect,
    FreeKickIndirect,
    Penalty,
    ThrowIn,
    GoalKick,
}

/// How a corner is taken.
#[derive(Debug, Clone, Copy, PartialEq, Eq, Structural)]
pub enum CornerTactic {
    Inswing,
    Outswing,
    Short,
    NearPost,
    FarPost,
}

impl Default for CornerTactic {
    fn default() -> (r: CornerTactic)
        ensures
            r == CornerTactic::Inswing,
    {
        CornerTactic::Inswing
    }
}

/// How a free kick is taken.
#[derive(Debug, Clone, Copy, PartialEq, Eq, Structural)]
pub enum FreeKickTactic {
    DirectShot,
    Cross,
    ShortPass,
    LobBehind,
}

impl Default for FreeKickTactic {
    fn default() -> (r: FreeKickTactic)
        ensures
            r == FreeKickTactic::DirectShot,
    {
        FreeKickTactic::DirectShot
    }
}

/// Phase of a set piece.
#[derive(Debug, Clone, Copy, PartialEq, Eq, Structural)]
pub enum SetPiecePhase {
    Setup,
    Delivery,
    Contest,
    Outcome,
    Finished,
}

impl Default for SetPiecePhase {
    fn default() -> (r: SetPiecePhase)
        ensures
            r == SetPiecePhase::Setup,
    {
        SetPiecePhase::Setup
    }
}

/// Who takes a penalty and who faces it, with their ratings (0-99).
#[derive(Debug, Clone)]
pub struct PenaltyContext {
    pub is_home_attacking: bool,
    pub kicker_idx: usize,
    pub kicker_name: String,
    pub penalty_taking: u8,
    pub composure: u8,
    pub finishing: u8,
    pub technique: u8,
    /// Whether the kicker has the gold dead-ball trait.
    pub has_deadball_gold: bool,
    pub gk_idx: usize,
    pub gk_name: String,
    pub gk_reflexes: u8,
    pub gk_diving: u8,
    pub gk_anticipation: u8,
}


/// Ticks of each phase of a corner: setup, delivery, contest.
pub const CORNER_SETUP_TICKS: u8 = 3;
pub const CORNER_DELIVERY_TICKS: u8 = 2;
pub const CORNER_CONTEST_TICKS: u8 = 2;

/// Ticks of each phase of a free kick: setup, delivery, contest.
pub const FREEKICK_SETUP_TICKS: u8 = 3;
pub const FREEKICK_DELIVERY_TICKS: u8 = 2;
pub const FREEKICK_CONTEST_TICKS: u8 = 2;

/// Ticks of each phase of a penalty: setup, delivery.
pub const PENALTY_SETUP_TICKS: u8 = 2;
pub const PENALTY_DELIVERY_TICKS: u8 = 1;

/// The tactic a set piece is played with, when its context is known.
#[derive(Debug, Clone, Copy, PartialEq, Eq, Structural)]
pub enum SetPieceTactic {
    Corner(CornerTactic),
    FreeKick(FreeKickTactic),
    Penalty,
    /// No context: the set piece ends at its next phase change.
    Unknown,
}

/// What came of the contest after a free kick into the box, as the caller
/// rolled it.
#[derive(Debug, Clone, Copy, PartialEq, Eq, Structural)]
pub enum FreeKickContest {
    /// The kicker gets a shot on target.
    Shot,
    /// The keeper clears.
    Cleared,
    /// Nothing comes of it.
    Nothing,
}

/// What the caller worked out for one tick of a set piece.
#[derive(Debug, Clone, Copy, PartialEq, Eq, Structural)]
pub struct SetPieceTick {
    /// At the contest of a corner: whether the defence beat the cross.
    pub cross_beaten: bool,
    /// At the contest of a free kick into the box: what came of it.
    pub freekick_contest: FreeKickContest,
}

/// What a tick of a set piece asks the caller to settle.
#[derive(Debug, Clone, Copy, PartialEq, Eq, Structural)]
pub enum SetPieceMove {
    /// Nothing new.
    Wait,
    /// A short corner: the first target keeps the ball.
    ShortCorner,
    /// The cross was beaten: the first defender clears.
    CrossCleared,
    /// The cross arrives: the aerial duel decides.
    AerialDuel,
    /// A direct free kick is struck.
    DirectFreeKick,
    /// The contest after a free kick gave the kicker a shot on target.
    FreeKickShot,
    /// The contest after a free kick was cleared by the keeper.
    FreeKickCleared,
    /// A short free kick: play goes on.
    ShortPass,
    /// The penalty is taken.
    Penalty,
    /// The set piece ends with nothing decided.
    Ended,
}

/// One tick of a set piece: the phase after it, the ticks left in it, and
/// what the caller has to settle.
#[derive(Debug, Clone, Copy, PartialEq, Eq, Structural)]
pub struct SetPieceStep {
    pub phase: SetPiecePhase,
    pub remaining_ticks: u8,
    pub action: SetPieceMove,
}

/// A step to another phase with its ticks.
pub open spec fn enter(phase: SetPiecePhase, ticks: u8) -> SetPieceStep {
    SetPieceStep { phase, remaining_ticks: ticks, action: SetPieceMove::Wait }
}

/// A step that ends the set piece with `m` to settle, the ticks left as they are.
pub open spec fn finish(rem: u8, m: SetPieceMove) -> SetPieceStep {
    SetPieceStep { phase: SetPiecePhase::Finished, remaining_ticks: rem, action: m }
}

/// The phase change of a set piece once its phase has run out (`rem` ticks
/// left, normally none): a corner sets up, is delivered (a short corner ends
/// there), contested (a beaten cross is cleared) and decided in the air; a
/// free kick sets up and is delivered (struck directly, played short, or
/// sent into the box for a contest); a penalty sets up and is taken;
/// throw-ins and goal kicks end at once, as does a set piece without its
/// context.
pub open spec fn phase_change(kind: SetPieceType, phase: SetPiecePhase, rem: u8, tactic: SetPieceTactic, t: SetPieceTick) -> SetPieceStep {
    match kind {
        SetPieceType::Corner => match tactic {
            SetPieceTactic::Corner(ct) => match phase {
                SetPiecePhase::Setup => enter(SetPiecePhase::Delivery, 2),
                SetPiecePhase::Delivery => if ct == CornerTactic::Short {
                    finish(rem, SetPieceMove::ShortCorner)
                } else {
                    enter(SetPiecePhase::Contest, 2)
                },
                SetPiecePhase::Contest => if t.cross_beaten {
                    finish(rem, SetPieceMove::CrossCleared)
                } else {
                    enter(SetPiecePhase::Outcome, 1)
                },
                SetPiecePhase::Outcome => finish(rem, SetPieceMove::AerialDuel),
                SetPiecePhase::Finished => finish(rem, SetPieceMove::Wait),
            },
            _ => finish(rem, SetPieceMove::Ended),
        },
        SetPieceType::FreeKickDirect | SetPieceType::FreeKickIndirect => match tactic {
            SetPieceTactic::FreeKick(ft) => match phase {
                SetPiecePhase::Setup => enter(SetPiecePhase::Delivery, 2),
                SetPiecePhase::Delivery => match ft {
                    FreeKickTactic::DirectShot => finish(rem, SetPieceMove::DirectFreeKick),
                    FreeKickTactic::Cross | FreeKickTactic::LobBehind => enter(SetPiecePhase::Contest, 2),
                    FreeKickTactic::ShortPass => finish(rem, SetPieceMove::ShortPass),
                },
                SetPiecePhase::Contest => finish(
                    rem,
                    match t.freekick_contest {
                        FreeKickContest::Shot => SetPieceMove::FreeKickShot,
                        FreeKickContest::Cleared => SetPieceMove::FreeKickCleared,
                        FreeKickContest::Nothing => SetPieceMove::Wait,
                    },
                ),
                _ => finish(rem, SetPieceMove::Wait),
            },
            _ => finish(rem, SetPieceMove::Ended),
        },
        SetPieceType::Penalty => match tactic {
            SetPieceTactic::Penalty => match phase {
                SetPiecePhase::Setup => enter(SetPiecePhase::Delivery, 1),
                SetPiecePhase::Delivery => finish(rem, SetPieceMove::Penalty),
                _ => finish(rem, SetPieceMove::Wait),
            },
            _ => finish(rem, SetPieceMove::Ended),
        },
        SetPieceType::ThrowIn | SetPieceType::GoalKick => finish(rem, SetPieceMove::Ended),
    }
}

/// One tick of a set piece: a finished one stays finished; otherwise the
/// phase's countdown drops by one and, once it has run out, the phase
/// changes as `phase_change` states.
pub open spec fn set_piece_step_spec(kind: SetPieceType, phase: SetPiecePhase, rem: u8, tactic: SetPieceTactic, t: SetPieceTick) -> SetPieceStep {
    if phase == SetPiecePhase::Finished {
        SetPieceStep { phase, remaining_ticks: rem, action: SetPieceMove::Wait }
    } else if rem > 1 {
        SetPieceStep { phase, remaining_ticks: (rem - 1) as u8, action: SetPieceMove::Wait }
    } else {
        phase_change(kind, phase, 0, tactic, t)
    }
}

/// One tick of a set piece, as `set_piece_step_spec` states it.
pub fn set_piece_step(
    kind: SetPieceType,
    phase: SetPiecePhase,
    remaining_ticks: u8,
    tactic: SetPieceTactic,
    t: SetPieceTick,
) -> (r: SetPieceStep)
    ensures
        r == set_piece_step_spec(kind, phase, remaining_ticks, tactic, t),
{
    if let SetPiecePhase::Finished = phase {
        return SetPieceStep { phase, remaining_ticks, action: SetPieceMove::Wait };
    }
    let mut rem = remaining_ticks;
    if rem > 0 {
        rem = rem - 1;
        if rem > 0 {
            return SetPieceStep { phase, remaining_ticks: rem, action: SetPieceMove::Wait };
        }
    }
    let wait = SetPieceMove::Wait;
    match kind {
        SetPieceType::Corner => match tactic {
            SetPieceTactic::Corner(ct) => match phase {
                SetPiecePhase::Setup => SetPieceStep { phase: SetPiecePhase::Delivery, remaining_ticks: CORNER_DELIVERY_TICKS, action: wait },
                SetPiecePhase::Delivery => if let CornerTactic::Short = ct {
                    SetPieceStep { phase: SetPiecePhase::Finished, remaining_ticks: rem, action: SetPieceMove::ShortCorner }
                } else {
                    SetPieceStep { phase: SetPiecePhase::Contest, remaining_ticks: CORNER_CONTEST_TICKS, action: wait }
                },
                SetPiecePhase::Contest => if t.cross_beaten {
                    SetPieceStep { phase: SetPiecePhase::Finished, remaining_ticks: rem, action: SetPieceMove::CrossCleared }
                } else {
                    SetPieceStep { phase: SetPiecePhase::Outcome, remaining_ticks: 1, action: wait }
                },
                SetPiecePhase::Outcome => SetPieceStep { phase: SetPiecePhase::Finished, remaining_ticks: rem, action: SetPieceMove::AerialDuel },
                SetPiecePhase::Finished => SetPieceStep { phase: SetPiecePhase::Finished, remaining_ticks: rem, action: wait },
            },
            _ => SetPieceStep { phase: SetPiecePhase::Finished, remaining_ticks: rem, action: SetPieceMove::Ended },
        },
        SetPieceType::FreeKickDirect | SetPieceType::FreeKickIndirect => match tactic {
            SetPieceTactic::FreeKick(ft) => match phase {
                SetPiecePhase::Setup => SetPieceStep { phase: SetPiecePhase::Delivery, remaining_ticks: FREEKICK_DELIVERY_TICKS, action: wait },
                SetPiecePhase::Delivery => match ft {
                    FreeKickTactic::DirectShot => SetPieceStep { phase: SetPiecePhase::Finished, remaining_ticks: rem, action: SetPieceMove::DirectFreeKick },
                    FreeKickTactic::Cross | FreeKickTactic::LobBehind => SetPieceStep { phase: SetPiecePhase::Contest, remaining_ticks: FREEKICK_CONTEST_TICKS, action: wait },
                    FreeKickTactic::ShortPass => SetPieceStep { phase: SetPiecePhase::Finished, remaining_ticks: rem, action: SetPieceMove::ShortPass },
                },
                SetPiecePhase::Contest => {
                    let m = match t.freekick_contest {
                        FreeKickContest::Shot => SetPieceMove::FreeKickShot,
                        FreeKickContest::Cleared => SetPieceMove::FreeKickCleared,
                        FreeKickContest::Nothing => SetPieceMove::Wait,
                    };
                    SetPieceStep { phase: SetPiecePhase::Finished, remaining_ticks: rem, action: m }
                },
                _ => SetPieceStep { phase: SetPiecePhase::Finished, remaining_ticks: rem, action: wait },
            },
            _ => SetPieceStep { phase: SetPiecePhase::Finished, remaining_ticks: rem, action: SetPieceMove::Ended },
        },
        SetPieceType::Penalty => match tactic {
            SetPieceTactic::Penalty => match phase {
                SetPiecePhase::Setup => SetPieceStep { phase: SetPiecePhase::Delivery, remaining_ticks: PENALTY_DELIVERY_TICKS, action: wait },
                SetPiecePhase::Delivery => SetPieceStep { phase: SetPiecePhase::Finished, remaining_ticks: rem, action: SetPieceMove::Penalty },
                _ => SetPieceStep { phase: SetPiecePhase::Finished, remaining_ticks: rem, action: wait },
            },
            _ => SetPieceStep { phase: SetPiecePhase::Finished, remaining_ticks: rem, action: SetPieceMove::Ended },
        },
        SetPieceType::ThrowIn | SetPieceType::GoalKick => SetPieceStep { phase: SetPiecePhase::Finished, remaining_ticks: rem, action: SetPieceMove::Ended },
    }
}

/// Rank of a phase, from setup (4) to finished (0).
pub open spec fn phase_rank(p: SetPiecePhase) -> int {
    match p {
        SetPiecePhase::Setup => 4,
        SetPiecePhase::Delivery => 3,
        SetPiecePhase::Contest => 2,
        SetPiecePhase::Outcome => 1,
        SetPiecePhase::Finished => 0,
    }
}

/// Most ticks the phases after `p` can still count down.
pub open spec fn ticks_after(p: SetPiecePhase) -> int {
    match p {
        SetPiecePhase::Setup => 5,
        SetPiecePhase::Delivery => 3,
        SetPiecePhase::Contest => 1,
        _ => 0,
    }
}

/// A bound on the ticks a set piece can still last.
pub open spec fn set_piece_measure(p: SetPiecePhase, rem: u8) -> int {
    if p == SetPiecePhase::Finished {
        0
    } else {
        rem + ticks_after(p) + phase_rank(p)
    }
}

/// Every set piece ends: each tick of a running set piece lowers the bound
/// on the ticks it can still last, phases only move forward, and a finished
/// set piece stays finished and asks nothing more.
pub proof fn lemma_set_piece_ends(kind: SetPieceType, phase: SetPiecePhase, rem: u8, tactic: SetPieceTactic, t: SetPieceTick)
    ensures
        phase != SetPiecePhase::Finished ==> set_piece_measure(
            set_piece_step_spec(kind, phase, rem, tactic, t).phase,
            set_piece_step_spec(kind, phase, rem, tactic, t).remaining_ticks,
        ) < set_piece_measure(phase, rem),
        phase_rank(set_piece_step_spec(kind, phase, rem, tactic, t).phase) <= phase_rank(phase),
        phase == SetPiecePhase::Finished ==> set_piece_step_spec(kind, phase, rem, tactic, t) == (SetPieceStep {
            phase,
            remaining_ticks: rem,
            action: SetPieceMove::Wait,
        }),
{
}

/// Whether a free kick of `kind` is taken with a free-kick plan.
pub open spec fn is_free_kick(kind: SetPieceType, tactic: SetPieceTactic) -> bool {
    (kind == SetPieceType::FreeKickDirect || kind == SetPieceType::FreeKickIndirect) && tactic is FreeKick
}

/// Whether a corner is taken with a corner plan.
pub open spec fn is_corner(kind: SetPieceType, tactic: SetPieceTactic) -> bool {
    kind == SetPieceType::Corner && tactic is Corner
}

/// What each move a set piece asks for rests on: a move is asked for only on
/// the tick that a running phase runs out, and then exactly in its situation.
/// After a free kick into the box, the contest's result is reported one to
/// one: a shot as a shot, a clearance as a clearance, nothing as nothing. At a
/// corner a beaten cross is cleared and an unbeaten one goes to the aerial
/// duel, a short corner ends at the delivery, and a penalty is taken at its
/// delivery.
pub proof fn lemma_set_piece_moves(kind: SetPieceType, phase: SetPiecePhase, rem: u8, tactic: SetPieceTactic, t: SetPieceTick)
    ensures
        ({
            let due = phase != SetPiecePhase::Finished && rem <= 1;
            let a = set_piece_step_spec(kind, phase, rem, tactic, t).action;
            &&& a == SetPieceMove::FreeKickShot <==> (due && is_free_kick(kind, tactic) && phase
                == SetPiecePhase::Contest && t.freekick_contest == FreeKickContest::Shot)
            &&& a == SetPieceMove::FreeKickCleared <==> (due && is_free_kick(kind, tactic) && phase
                == SetPiecePhase::Contest && t.freekick_contest == FreeKickContest::Cleared)
            &&& due && is_free_kick(kind, tactic) && phase == SetPiecePhase::Contest && t.freekick_contest
                == FreeKickContest::Nothing ==> a == SetPieceMove::Wait
            &&& a == SetPieceMove::CrossCleared <==> (due && is_corner(kind, tactic) && phase
                == SetPiecePhase::Contest && t.cross_beaten)
            &&& a == SetPieceMove::AerialDuel <==> (due && is_corner(kind, tactic) && phase
                == SetPiecePhase::Outcome)
            &&& a == SetPieceMove::ShortCorner <==> (due && tactic == SetPieceTactic::Corner(CornerTactic::Short)
                && kind == SetPieceType::Corner && phase == SetPiecePhase::Delivery)
            &&& a == SetPieceMove::DirectFreeKick <==> (due && is_free_kick(kind, tactic) && tactic
                == SetPieceTactic::FreeKick(FreeKickTactic::DirectShot) && phase == SetPiecePhase::Delivery)
            &&& a == SetPieceMove::ShortPass <==> (due && is_free_kick(kind, tactic) && tactic
                == SetPieceTactic::FreeKick(FreeKickTactic::ShortPass) && phase == SetPiecePhase::Delivery)
            &&& a == SetPieceMove::Penalty <==> (due && kind == SetPieceType::Penalty && tactic
                == SetPieceTactic::Penalty && phase == SetPiecePhase::Delivery)
            &&& !due ==> a == SetPieceMove::Wait
        }),
{
}

} // verus!
