//! How long the phases of actions last, in ticks of 250 ms (4 per second).
use vstd::prelude::*;
use crate::phase_action::action_types::{ActionPhase, PhaseActionType};

verus! {

/// Ticks per second.
pub const TICKS_PER_SECOND: u64 = 4;

/// Longest approach of a tackle (5 s).
pub const TACKLE_APPROACH_MAX_TICKS: u8 = 20;

/// Commit ticks of a standing tackle.
pub const TACKLE_COMMIT_STANDING_TICKS: u8 = 2;

/// Commit ticks of a sliding tackle.
pub const TACKLE_COMMIT_SLIDING_TICKS: u8 = 4;

/// Commit ticks of a shoulder challenge.
pub const TACKLE_COMMIT_SHOULDER_TICKS: u8 = 1;

/// Ticks to resolve a tackle.
pub const TACKLE_RESOLVE_TICKS: u8 = 1;

/// Recovery after winning the ball cleanly.
pub const TACKLE_RECOVERY_CLEAN_TICKS: u8 = 4;

/// Recovery after a deflection.
pub const TACKLE_RECOVERY_DEFLECT_TICKS: u8 = 8;

/// Recovery after a miss.
pub const TACKLE_RECOVERY_MISS_TICKS: u8 = 12;

/// Recovery after a foul (with or without a card).
pub const TACKLE_RECOVERY_FOUL_TICKS: u8 = 16;

/// Ticks before the same player may tackle again (6 s).
pub const TACKLE_COOLDOWN_TICKS: u8 = 24;

/// Gather ticks before the first touch of a dribble.
pub const DRIBBLE_GATHER_TICKS: u8 = 2;

/// Ticks of a dribble touch.
pub const DRIBBLE_TOUCH_TICKS: u8 = 1;

/// Ticks of carrying the ball between touches.
pub const DRIBBLE_CARRY_TICKS: u8 = 7;

/// Ticks from one touch to the next (touch plus carry, 2 s).
pub const DRIBBLE_TOUCH_INTERVAL: u8 = 8;

/// Ticks of an evasive move.
pub const DRIBBLE_EVADE_TICKS: u8 = 4;

/// Sprint ticks after knocking the ball on.
pub const KNOCKON_SPRINT_TICKS: u8 = 8;

/// Wind-up of a ground pass.
pub const PASS_WINDUP_GROUND_TICKS: u8 = 1;

/// Wind-up of a lofted pass.
pub const PASS_WINDUP_LOFTED_TICKS: u8 = 2;

/// Wind-up of a through ball.
pub const PASS_WINDUP_THROUGH_TICKS: u8 = 2;

/// Wind-up of a cross.
pub const PASS_WINDUP_CROSS_TICKS: u8 = 3;

/// Wind-up of a back pass.
pub const PASS_WINDUP_BACK_TICKS: u8 = 1;

/// Ticks of the kick of a pass.
pub const PASS_KICK_TICKS: u8 = 1;

/// Recovery after a pass.
pub const PASS_RECOVERY_TICKS: u8 = 2;

/// Cooldown after a pass.
pub const PASS_COOLDOWN_TICKS: u8 = 4;

/// Wind-up of a normal shot.
pub const SHOT_WINDUP_NORMAL_TICKS: u8 = 3;

/// Wind-up of a finesse shot.
pub const SHOT_WINDUP_FINESSE_TICKS: u8 = 3;

/// Wind-up of a power shot.
pub const SHOT_WINDUP_POWER_TICKS: u8 = 4;

/// Wind-up of a chip.
pub const SHOT_WINDUP_CHIP_TICKS: u8 = 2;

/// Wind-up of a header.
pub const SHOT_WINDUP_HEADER_TICKS: u8 = 1;

/// Wind-up of a volley.
pub const SHOT_WINDUP_VOLLEY_TICKS: u8 = 2;

/// Wind-up of a one-touch shot.
pub const SHOT_WINDUP_ONETOUCH_TICKS: u8 = 1;

/// Ticks of the strike of a shot.
pub const SHOT_STRIKE_TICKS: u8 = 1;

/// Recovery after a shot.
pub const SHOT_RECOVERY_TICKS: u8 = 4;

/// Cooldown after a shot.
pub const SHOT_COOLDOWN_TICKS: u8 = 8;

/// Longest a player keeps pressing before handing over.
pub const PRESS_MAX_TICKS: u16 = 80;

/// Recovery after pressing.
pub const PRESS_RECOVERY_TICKS: u8 = 16;

/// Default length of a phase of an action, in ticks.
pub open spec fn phase_duration(action_type: PhaseActionType, phase: ActionPhase) -> u64 {
    match action_type {
        PhaseActionType::Tackle => match phase {
            ActionPhase::Approach => 20,
            ActionPhase::Commit => 2,
            ActionPhase::Resolve => 1,
            ActionPhase::Recover => 12,
            ActionPhase::Cooldown => 24,
            _ => 0,
        },
        PhaseActionType::Pass => match phase {
            ActionPhase::Commit => 1,
            ActionPhase::Recover => 2,
            ActionPhase::Cooldown => 4,
            _ => 0,
        },
        PhaseActionType::Shot => match phase {
            ActionPhase::Commit => 1,
            ActionPhase::Recover => 4,
            ActionPhase::Cooldown => 8,
            _ => 0,
        },
        PhaseActionType::Dribble => match phase {
            ActionPhase::Approach => 2,
            ActionPhase::Commit => 1,
            _ => 0,
        },
        _ => 0,
    }
}

/// Default length in ticks of a phase of an action: a tackle approaches for
/// at most 20, commits 2 (standing), resolves 1, recovers 12 (after a miss)
/// and cools down 24; a pass kicks 1, recovers 2 and cools down 4; a shot
/// strikes 1, recovers 4 and cools down 8; a dribble gathers 2 and touches 1;
/// every other phase, and every phase of other actions, lasts 0 (its length
/// is decided as it runs).
pub fn get_phase_duration(action_type: PhaseActionType, phase: ActionPhase) -> (r: u64)
    ensures
        r == phase_duration(action_type, phase),
{
    match action_type {
        PhaseActionType::Tackle => match phase {
            ActionPhase::Approach => TACKLE_APPROACH_MAX_TICKS as u64,
            ActionPhase::Commit => TACKLE_COMMIT_STANDING_TICKS as u64,
            ActionPhase::Resolve => TACKLE_RESOLVE_TICKS as u64,
            ActionPhase::Recover => TACKLE_RECOVERY_MISS_TICKS as u64,
            ActionPhase::Cooldown => TACKLE_COOLDOWN_TICKS as u64,
            _ => 0,
        },
        PhaseActionType::Pass => match phase {
            ActionPhase::Approach => 0,
            ActionPhase::Commit => PASS_KICK_TICKS as u64,
            ActionPhase::Resolve => 0,
            ActionPhase::Recover => PASS_RECOVERY_TICKS as u64,
            ActionPhase::Cooldown => PASS_COOLDOWN_TICKS as u64,
            _ => 0,
        },
        PhaseActionType::Shot => match phase {
            ActionPhase::Approach => 0,
            ActionPhase::Commit => SHOT_STRIKE_TICKS as u64,
            ActionPhase::Resolve => 0,
            ActionPhase::Recover => SHOT_RECOVERY_TICKS as u64,
            ActionPhase::Cooldown => SHOT_COOLDOWN_TICKS as u64,
            _ => 0,
        },
        PhaseActionType::Dribble => match phase {
            ActionPhase::Approach => DRIBBLE_GATHER_TICKS as u64,
            ActionPhase::Commit => DRIBBLE_TOUCH_TICKS as u64,
            ActionPhase::Resolve => 0,
            ActionPhase::Recover => 0,
            ActionPhase::Cooldown => 0,
            _ => 0,
        },
        PhaseActionType::Move => match phase {
            ActionPhase::Approach => 0,
            _ => 0,
        },
        _ => 0,
    }
}

/// Approach ticks of a tackle over `distance` (0.1 m) at 4 m/s, i.e. one metre
/// per tick, rounded up, at least 1 and at most 20.
pub fn tackle_approach_ticks(distance: u32) -> (r: u8)
    ensures
        r == if distance == 0 {
            1
        } else if (distance + 9) / 10 > 20 {
            20
        } else {
            (distance + 9) / 10
        },
        1 <= r <= 20,
{
    let ticks: u64 = (distance as u64 + 9) / 10;
    if ticks < 1 {
        1
    } else if ticks > TACKLE_APPROACH_MAX_TICKS as u64 {
        TACKLE_APPROACH_MAX_TICKS
    } else {
        ticks as u8
    }
}

} // verus!
