//! Shots: why a player shoots (intent), how (technique), shooting skills,
//! results and flight profiles.
use vstd::prelude::*;
use crate::phase_action::action_types::ShotType;
use crate::phase_action::ball_physics::HeightCurve;

verus! {

/// Why the player shoots.
#[derive(Debug, Clone, Copy, PartialEq, Eq, Structural)]
pub enum ShotIntent {
    /// Aim for a corner.
    Place,
    /// Beat the keeper with power.
    Power,
    /// Shoot early.
    Quick,
    /// Meet a ball in the air.
    Aerial,
    /// Lift the ball over the keeper.
    Chip,
}

/// How the player shoots.
#[derive(Debug, Clone, Copy, PartialEq, Eq, Structural)]
pub enum ShotTechnique {
    Normal,
    Power,
    OneTouch,
    Volley,
    Header,
    Chip,
}

impl ShotTechnique {
    /// The kind of shot a technique makes.
    pub fn to_shot_type(&self) -> (r: ShotType)
        ensures
            r == match *self {
                ShotTechnique::Normal => ShotType::Normal,
                ShotTechnique::Power => ShotType::Power,
                ShotTechnique::OneTouch => ShotType::OneTouch,
                ShotTechnique::Volley => ShotType::Volley,
                ShotTechnique::Header => ShotType::Header,
                ShotTechnique::Chip => ShotType::Chip,
            },
    {
        match self {
            ShotTechnique::Normal => ShotType::Normal,
            ShotTechnique::Power => ShotType::Power,
            ShotTechnique::OneTouch => ShotType::OneTouch,
            ShotTechnique::Volley => ShotType::Volley,
            ShotTechnique::Header => ShotType::Header,
            ShotTechnique::Chip => ShotType::Chip,
        }
    }
}

/// Shooting skills of a player (0-99).
#[derive(Debug, Clone, Copy, PartialEq, Eq, Structural)]
pub struct ShooterSkills {
    pub finishing: u8,
    pub long_shots: u8,
    pub volleys: u8,
    pub composure: u8,
}

/// Shooting skills with technique, pace, balance and concentration (0-99).
#[derive(Debug, Clone, Copy, PartialEq, Eq, Structural)]
pub struct ShooterSkillsFM {
    pub base: ShooterSkills,
    pub technique: u8,
    pub pace: u8,
    pub balance: u8,
    pub concentration: u8,
}

impl ShooterSkillsFM {
    /// The plain shooting skills.
    pub fn as_base(&self) -> (r: &ShooterSkills)
        ensures
            *r == self.base,
    {
        &self.base
    }
}

/// How a keeper saves.
#[derive(Debug, Clone, Copy, PartialEq, Eq, Structural)]
pub enum SaveType {
    Catch,
    Punch,
    Parry,
    Dive,
}

/// Result of a shot.
#[derive(Debug, Clone, Copy, PartialEq, Eq, Structural)]
pub enum ShotResult {
    Goal,
    Saved { save_type: SaveType },
    Missed,
    Blocked { blocker_idx: usize },
    InProgress,
}

/// Height profile of a shot.
#[derive(Debug, Clone, Copy, PartialEq, Eq, Structural)]
pub enum ShotHeightProfile {
    /// Along the ground.
    Flat,
    /// Up to 3.5 m.
    Arc,
    /// Up to 10 m.
    Lob,
}

impl ShotHeightProfile {
    /// The flight shape of the profile: flat is a line, an arc a medium arc,
    /// a lob a high arc.
    pub fn to_height_curve(self) -> (r: HeightCurve)
        ensures
            r == match self {
                ShotHeightProfile::Flat => HeightCurve::Line,
                ShotHeightProfile::Arc => HeightCurve::MediumArc,
                ShotHeightProfile::Lob => HeightCurve::HighArc,
            },
    {
        match self {
            ShotHeightProfile::Flat => HeightCurve::Line,
            ShotHeightProfile::Arc => HeightCurve::MediumArc,
            ShotHeightProfile::Lob => HeightCurve::HighArc,
        }
    }
}

/// Height profile of a kind of shot: power shots stay flat, chips are lobbed,
/// every other shot takes an arc.
pub fn get_height_profile(shot_type: ShotType) -> (r: ShotHeightProfile)
    ensures
        r == match shot_type {
            ShotType::Power => ShotHeightProfile::Flat,
            ShotType::Chip => ShotHeightProfile::Lob,
            _ => ShotHeightProfile::Arc,
        },
{
    match shot_type {
        ShotType::Normal => ShotHeightProfile::Arc,
        ShotType::Finesse => ShotHeightProfile::Arc,
        ShotType::Power => ShotHeightProfile::Flat,
        ShotType::Chip => ShotHeightProfile::Lob,
        ShotType::Header => ShotHeightProfile::Arc,
        ShotType::Volley => ShotHeightProfile::Arc,
        ShotType::OneTouch => ShotHeightProfile::Arc,
    }
}

/// Techniques allowed for an intent, in order of preference.
pub open spec fn shot_techniques(i: ShotIntent) -> Seq<ShotTechnique> {
    match i {
        ShotIntent::Place => seq![ShotTechnique::Normal, ShotTechnique::OneTouch],
        ShotIntent::Power => seq![ShotTechnique::Power],
        ShotIntent::Quick => seq![ShotTechnique::OneTouch, ShotTechnique::Normal],
        ShotIntent::Aerial => seq![ShotTechnique::Volley, ShotTechnique::Header],
        ShotIntent::Chip => seq![ShotTechnique::Chip],
    }
}

/// The technique an intent calls for: normal to place, power for power,
/// one-touch to shoot early, a header for a ball above 1.5 m and a volley
/// otherwise for a ball in the air, a chip to chip.
pub open spec fn shot_technique_for(intent: ShotIntent, ball_height_cm: u32) -> ShotTechnique {
    match intent {
        ShotIntent::Place => ShotTechnique::Normal,
        ShotIntent::Power => ShotTechnique::Power,
        ShotIntent::Quick => ShotTechnique::OneTouch,
        ShotIntent::Aerial => if ball_height_cm > 150 {
            ShotTechnique::Header
        } else {
            ShotTechnique::Volley
        },
        ShotIntent::Chip => ShotTechnique::Chip,
    }
}

/// Chooses the technique for an intent, given the height of the ball (cm);
/// the shooter's skills do not enter the choice.
pub fn choose_shot_technique(intent: ShotIntent, ball_height_cm: u32, _skills: &ShooterSkills) -> (r: ShotTechnique)
    ensures
        r == shot_technique_for(intent, ball_height_cm),
        shot_techniques(intent).contains(r),
{
    let r = match intent {
        ShotIntent::Place => ShotTechnique::Normal,
        ShotIntent::Power => ShotTechnique::Power,
        ShotIntent::Quick => ShotTechnique::OneTouch,
        ShotIntent::Aerial => if ball_height_cm > 150 {
            ShotTechnique::Header
        } else {
            ShotTechnique::Volley
        },
        ShotIntent::Chip => ShotTechnique::Chip,
    };
    proof {
        let s = shot_techniques(intent);
        assert(s[0] == r || (s.len() > 1 && s[1] == r));
    }
    r
}

/// The shot model: intent to technique.
pub struct ShotModel;

impl ShotModel {
    /// Techniques allowed for an intent: normal or one-touch to place, power
    /// for power, one-touch or normal to shoot early, volley or header for a
    /// ball in the air, a chip to chip.
    pub fn available_techniques(intent: ShotIntent) -> (r: &'static [ShotTechnique])
        ensures
            r@ == shot_techniques(intent),
    {
        match intent {
            ShotIntent::Place => &[ShotTechnique::Normal, ShotTechnique::OneTouch],
            ShotIntent::Power => &[ShotTechnique::Power],
            ShotIntent::Quick => &[ShotTechnique::OneTouch, ShotTechnique::Normal],
            ShotIntent::Aerial => &[ShotTechnique::Volley, ShotTechnique::Header],
            ShotIntent::Chip => &[ShotTechnique::Chip],
        }
    }
}

/// Phase of a shot.
#[derive(Debug, Clone, Copy, PartialEq, Eq, Structural)]
pub enum ShotPhase {
    /// Setting up the shot.
    Windup { remaining_ticks: u8 },
    /// The foot meets the ball.
    Strike,
    /// The ball travels `flight_distance_dm` (0.1 m) to arrive at `arrival_tick`.
    InFlight { arrival_tick: u64, flight_distance_dm: u32 },
    /// The keeper and the goal frame decide.
    GoalCheck,
    /// Over.
    Finished,
}

impl ShotPhase {
    /// Ticks left in the phase at `current_tick`: the windup's countdown, one
    /// for the strike and for the goal check, the ticks to the arrival in
    /// flight (none once it is due), none when finished.
    pub fn remaining_ticks(&self, current_tick: u64) -> (r: u64)
        ensures
            r == match *self {
                ShotPhase::Windup { remaining_ticks } => remaining_ticks as u64,
                ShotPhase::Strike => 1,
                ShotPhase::InFlight { arrival_tick, .. } => if arrival_tick > current_tick {
                    (arrival_tick - current_tick) as u64
                } else {
                    0
                },
                ShotPhase::GoalCheck => 1,
                ShotPhase::Finished => 0,
            },
    {
        match self {
            ShotPhase::Windup { remaining_ticks } => *remaining_ticks as u64,
            ShotPhase::Strike => 1,
            ShotPhase::InFlight { arrival_tick, .. } => arrival_tick.saturating_sub(current_tick),
            ShotPhase::GoalCheck => 1,
            ShotPhase::Finished => 0,
        }
    }
}

/// What the caller worked out for one tick of a shot.
#[derive(Debug, Clone, Copy, PartialEq, Eq, Structural)]
pub struct ShotTick {
    pub current_tick: u64,
    /// During the windup, a defender who blocks the shot.
    pub blocker: Option<usize>,
    /// On the strike, the flight's length in ticks and in 0.1 m.
    pub flight_ticks: u64,
    pub flight_distance_dm: u32,
    /// In flight and low enough, a defender who blocks the ball.
    pub flying_blocker: Option<usize>,
    /// On the goal check, whether the shot is on target and how the keeper
    /// saves it, if he does.
    pub on_target: bool,
    pub save: Option<SaveType>,
}

/// One tick of a shot: the phase after it, the result kept, and the result
/// reported.
#[derive(Debug, Clone, Copy, PartialEq, Eq, Structural)]
pub struct ShotStep {
    pub next: ShotPhase,
    pub kept: ShotResult,
    pub reported: ShotResult,
}

/// One tick of a shot in `phase` with the result `kept` so far: a block in
/// the windup ends the shot, otherwise the windup counts down to the strike;
/// the strike starts a flight of at least one tick; a block in flight ends the
/// shot, otherwise the flight ends at its arrival tick; the goal check gives a
/// miss off target, a save when the keeper saves, a goal otherwise; a finished
/// shot reports its result again.
pub open spec fn shot_step_spec(phase: ShotPhase, kept: ShotResult, t: ShotTick) -> ShotStep {
    match phase {
        ShotPhase::Windup { remaining_ticks } => match t.blocker {
            Some(b) => ShotStep {
                next: ShotPhase::Finished,
                kept: ShotResult::Blocked { blocker_idx: b },
                reported: ShotResult::Blocked { blocker_idx: b },
            },
            None => ShotStep {
                next: if remaining_ticks <= 1 {
                    ShotPhase::Strike
                } else {
                    ShotPhase::Windup { remaining_ticks: (remaining_ticks - 1) as u8 }
                },
                kept,
                reported: ShotResult::InProgress,
            },
        },
        ShotPhase::Strike => ShotStep {
            next: ShotPhase::InFlight {
                arrival_tick: (t.current_tick + if t.flight_ticks < 1 { 1 } else { t.flight_ticks as int }) as u64,
                flight_distance_dm: t.flight_distance_dm,
            },
            kept,
            reported: ShotResult::InProgress,
        },
        ShotPhase::InFlight { arrival_tick, .. } => match t.flying_blocker {
            Some(b) => ShotStep {
                next: ShotPhase::Finished,
                kept: ShotResult::Blocked { blocker_idx: b },
                reported: ShotResult::Blocked { blocker_idx: b },
            },
            None => ShotStep {
                next: if t.current_tick >= arrival_tick { ShotPhase::GoalCheck } else { phase },
                kept,
                reported: ShotResult::InProgress,
            },
        },
        ShotPhase::GoalCheck => {
            let r = if !t.on_target {
                ShotResult::Missed
            } else {
                match t.save {
                    Some(st) => ShotResult::Saved { save_type: st },
                    None => ShotResult::Goal,
                }
            };
            ShotStep { next: ShotPhase::Finished, kept: r, reported: r }
        },
        ShotPhase::Finished => ShotStep { next: ShotPhase::Finished, kept, reported: kept },
    }
}

/// One tick of a shot, as `shot_step_spec` states it.
pub fn shot_step(phase: ShotPhase, kept: ShotResult, t: &ShotTick) -> (r: ShotStep)
    requires
        t.current_tick + (if t.flight_ticks < 1 { 1 } else { t.flight_ticks as int }) <= u64::MAX,
    ensures
        r == shot_step_spec(phase, kept, *t),
{
    match phase {
        ShotPhase::Windup { remaining_ticks } => {
            if let Some(b) = t.blocker {
                return ShotStep {
                    next: ShotPhase::Finished,
                    kept: ShotResult::Blocked { blocker_idx: b },
                    reported: ShotResult::Blocked { blocker_idx: b },
                };
            }
            let remaining = remaining_ticks.saturating_sub(1);
            let next = if remaining == 0 {
                ShotPhase::Strike
            } else {
                ShotPhase::Windup { remaining_ticks: remaining }
            };
            ShotStep { next, kept, reported: ShotResult::InProgress }
        },
        ShotPhase::Strike => {
            let flight = if t.flight_ticks < 1 { 1 } else { t.flight_ticks };
            ShotStep {
                next: ShotPhase::InFlight {
                    arrival_tick: t.current_tick + flight,
                    flight_distance_dm: t.flight_distance_dm,
                },
                kept,
                reported: ShotResult::InProgress,
            }
        },
        ShotPhase::InFlight { arrival_tick, .. } => {
            if let Some(b) = t.flying_blocker {
                return ShotStep {
                    next: ShotPhase::Finished,
                    kept: ShotResult::Blocked { blocker_idx: b },
                    reported: ShotResult::Blocked { blocker_idx: b },
                };
            }
            let next = if t.current_tick >= arrival_tick { ShotPhase::GoalCheck } else { phase };
            ShotStep { next, kept, reported: ShotResult::InProgress }
        },
        ShotPhase::GoalCheck => {
            let r = if !t.on_target {
                ShotResult::Missed
            } else {
                match t.save {
                    Some(st) => ShotResult::Saved { save_type: st },
                    None => ShotResult::Goal,
                }
            };
            ShotStep { next: ShotPhase::Finished, kept: r, reported: r }
        },
        ShotPhase::Finished => ShotStep { next: ShotPhase::Finished, kept, reported: kept },
    }
}

/// A shot ends with its result: whenever a tick finishes the shot, the result
/// it keeps is final (a goal, a save, a miss or a block) and the one it
/// reports; a finished shot keeps reporting it.
pub proof fn lemma_shot_result_final(phase: ShotPhase, kept: ShotResult, t: ShotTick)
    requires
        phase is Finished ==> kept != ShotResult::InProgress,
    ensures
        shot_step_spec(phase, kept, t).next is Finished ==> shot_step_spec(phase, kept, t).kept
            != ShotResult::InProgress && shot_step_spec(phase, kept, t).reported == shot_step_spec(
            phase,
            kept,
            t,
        ).kept,
        !(shot_step_spec(phase, kept, t).next is Finished) ==> shot_step_spec(phase, kept, t).reported
            == ShotResult::InProgress,
{
}

/// What a shot's result rests on. A shot that is not on target is a miss,
/// whatever the keeper's save roll, and nothing else makes a miss; a save
/// needs a shot on target and the keeper's save, and is that save; a goal is a
/// shot on target that the keeper does not save; a block comes only from the
/// defender blocking the windup or the ball in flight. The result is decided
/// at the goal check, and kept as reported.
pub proof fn lemma_shot_outcome_grounds(phase: ShotPhase, kept: ShotResult, t: ShotTick)
    requires
        !(phase is Finished),
    ensures
        phase is GoalCheck ==> shot_step_spec(phase, kept, t).kept == shot_step_spec(phase, kept, t).reported,
        phase is GoalCheck && !t.on_target ==> shot_step_spec(phase, kept, t).reported == ShotResult::Missed,
        shot_step_spec(phase, kept, t).reported == ShotResult::Missed ==> phase is GoalCheck && !t.on_target,
        shot_step_spec(phase, kept, t).reported matches ShotResult::Saved { save_type } ==> phase is GoalCheck
            && t.on_target && t.save == Some(save_type),
        phase is GoalCheck && t.on_target && t.save.is_some() ==> shot_step_spec(phase, kept, t).reported
            == (ShotResult::Saved { save_type: t.save.unwrap() }),
        shot_step_spec(phase, kept, t).reported == ShotResult::Goal <==> (phase is GoalCheck && t.on_target
            && t.save.is_none()),
        shot_step_spec(phase, kept, t).reported matches ShotResult::Blocked { blocker_idx } ==> (phase is Windup
            && t.blocker == Some(blocker_idx)) || (phase is InFlight && t.flying_blocker == Some(blocker_idx)),
{
}

} // verus!
