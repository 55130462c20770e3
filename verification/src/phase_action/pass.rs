//! Passes: why a player passes (intent), how (technique), the player's passing
//! skills, and the phases of a pass.
use vstd::prelude::*;
use crate::attributes::PlayerAttributes;
use crate::phase_action::action_types::PassType;

verus! {

/// Why the player passes.
#[derive(Debug, Clone, Copy, PartialEq, Eq, Hash, Structural)]
pub enum PassIntent {
    /// Keep the ball safely (back or sideways).
    Retain,
    /// Move the ball forward without much risk.
    Progress,
    /// Play behind the defensive line.
    Penetrate,
    /// Switch the play to the other flank.
    Switch,
    /// Get out of pressure.
    Escape,
}

/// How the player passes.
#[derive(Debug, Clone, Copy, PartialEq, Eq, Hash, Structural)]
pub enum PassTechnique {
    Ground,
    Driven,
    Lofted,
    Cross,
    Through,
    Clear,
}

/// Techniques allowed for an intent, in order of preference.
pub open spec fn pass_techniques(i: PassIntent) -> Seq<PassTechnique> {
    match i {
        PassIntent::Retain => seq![PassTechnique::Ground, PassTechnique::Driven],
        PassIntent::Progress => seq![PassTechnique::Ground, PassTechnique::Driven, PassTechnique::Lofted],
        PassIntent::Penetrate => seq![PassTechnique::Through, PassTechnique::Lofted, PassTechnique::Driven],
        PassIntent::Switch => seq![PassTechnique::Lofted, PassTechnique::Driven],
        PassIntent::Escape => seq![PassTechnique::Clear, PassTechnique::Ground],
    }
}

impl PassIntent {
    /// Techniques allowed for the intent: ground or driven to retain; ground,
    /// driven or lofted to progress; through, lofted or driven to penetrate;
    /// lofted or driven to switch; a clearance or a ground pass to escape.
    pub fn available_techniques(&self) -> (r: &'static [PassTechnique])
        ensures
            r@ == pass_techniques(*self),
    {
        match self {
            PassIntent::Retain => &[PassTechnique::Ground, PassTechnique::Driven],
            PassIntent::Progress => &[PassTechnique::Ground, PassTechnique::Driven, PassTechnique::Lofted],
            PassIntent::Penetrate => &[PassTechnique::Through, PassTechnique::Lofted, PassTechnique::Driven],
            PassIntent::Switch => &[PassTechnique::Lofted, PassTechnique::Driven],
            PassIntent::Escape => &[PassTechnique::Clear, PassTechnique::Ground],
        }
    }

    /// Name of the intent.
    pub fn name(&self) -> (r: &'static str)
        ensures
            r@ == match *self {
                PassIntent::Retain => "Retain"@,
                PassIntent::Progress => "Progress"@,
                PassIntent::Penetrate => "Penetrate"@,
                PassIntent::Switch => "Switch"@,
                PassIntent::Escape => "Escape"@,
            },
    {
        match self {
            PassIntent::Retain => "Retain",
            PassIntent::Progress => "Progress",
            PassIntent::Penetrate => "Penetrate",
            PassIntent::Switch => "Switch",
            PassIntent::Escape => "Escape",
        }
    }
}

impl PassTechnique {
    /// Name of the technique.
    pub fn name(&self) -> (r: &'static str)
        ensures
            r@ == match *self {
                PassTechnique::Ground => "Ground"@,
                PassTechnique::Driven => "Driven"@,
                PassTechnique::Lofted => "Lofted"@,
                PassTechnique::Cross => "Cross"@,
                PassTechnique::Through => "Through"@,
                PassTechnique::Clear => "Clear"@,
            },
    {
        match self {
            PassTechnique::Ground => "Ground",
            PassTechnique::Driven => "Driven",
            PassTechnique::Lofted => "Lofted",
            PassTechnique::Cross => "Cross",
            PassTechnique::Through => "Through",
            PassTechnique::Clear => "Clear",
        }
    }

    /// The kind of pass a technique makes: driven passes are ground passes,
    /// clearances are lofted.
    pub fn to_pass_type(&self) -> (r: PassType)
        ensures
            r == match *self {
                PassTechnique::Ground => PassType::Ground,
                PassTechnique::Driven => PassType::Ground,
                PassTechnique::Lofted => PassType::Lofted,
                PassTechnique::Cross => PassType::Cross,
                PassTechnique::Through => PassType::ThroughBall,
                PassTechnique::Clear => PassType::Lofted,
            },
    {
        match self {
            PassTechnique::Ground => PassType::Ground,
            PassTechnique::Driven => PassType::Ground,
            PassTechnique::Lofted => PassType::Lofted,
            PassTechnique::Cross => PassType::Cross,
            PassTechnique::Through => PassType::ThroughBall,
            PassTechnique::Clear => PassType::Lofted,
        }
    }
}

/// Passing skills of a player (0-99).
#[derive(Debug, Clone, Copy, PartialEq, Eq, Structural)]
pub struct PassSkills {
    pub passing: u8,
    pub technique: u8,
    pub vision: u8,
    pub decisions: u8,
    pub composure: u8,
}

impl Default for PassSkills {
    fn default() -> (r: PassSkills)
        ensures
            r == (PassSkills { passing: 0, technique: 0, vision: 0, decisions: 0, composure: 0 }),
    {
        PassSkills { passing: 0, technique: 0, vision: 0, decisions: 0, composure: 0 }
    }
}

impl PassSkills {
    /// The passing skills of a player.
    pub fn from_attributes(attrs: &PlayerAttributes) -> (r: PassSkills)
        ensures
            r == (PassSkills {
                passing: attrs.passing,
                technique: attrs.technique,
                vision: attrs.vision,
                decisions: attrs.decisions,
                composure: attrs.composure,
            }),
    {
        PassSkills {
            passing: attrs.passing,
            technique: attrs.technique,
            vision: attrs.vision,
            decisions: attrs.decisions,
            composure: attrs.composure,
        }
    }
}

/// Passing skills with anticipation and concentration (0-99).
#[derive(Debug, Clone, Copy, PartialEq, Eq, Structural)]
pub struct PassSkillsFM {
    pub base: PassSkills,
    pub anticipation: u8,
    pub concentration: u8,
}

impl PassSkillsFM {
    /// The plain passing skills.
    pub fn as_base(&self) -> (r: &PassSkills)
        ensures
            *r == self.base,
    {
        &self.base
    }
}

/// Phase of a pass.
#[derive(Debug, Clone, Copy, PartialEq, Eq, Structural)]
pub enum PassPhase {
    /// Setting up the pass.
    Windup { remaining_ticks: u8 },
    /// The foot meets the ball.
    Kick,
    /// The ball travels.
    InFlight { arrival_tick: u64 },
    /// Reception or interception.
    Arrival,
    /// Over.
    Finished,
}

impl PassPhase {
    /// Name of the phase.
    pub fn name(&self) -> (r: &'static str)
        ensures
            r@ == match *self {
                PassPhase::Windup { .. } => "Windup"@,
                PassPhase::Kick => "Kick"@,
                PassPhase::InFlight { .. } => "InFlight"@,
                PassPhase::Arrival => "Arrival"@,
                PassPhase::Finished => "Finished"@,
            },
    {
        match self {
            PassPhase::Windup { .. } => "Windup",
            PassPhase::Kick => "Kick",
            PassPhase::InFlight { .. } => "InFlight",
            PassPhase::Arrival => "Arrival",
            PassPhase::Finished => "Finished",
        }
    }

    /// Whether the pass is still running.
    pub fn is_active(&self) -> (r: bool)
        ensures
            r == !(*self is Finished),
    {
        match self {
            PassPhase::Finished => false,
            _ => true,
        }
    }
}

/// A player may start a pass when having the ball and being free to act.
pub fn can_start_pass(has_ball: bool, can_start_action: bool) -> (r: bool)
    ensures
        r == (has_ball && can_start_action),
{
    has_ball && can_start_action
}

/// The pass model: intent to technique.
pub struct PassModel;

impl PassModel {
    /// Techniques allowed for an intent.
    pub fn available_techniques(intent: PassIntent) -> (r: &'static [PassTechnique])
        ensures
            r@ == pass_techniques(intent),
    {
        intent.available_techniques()
    }
}

/// Distance (cm) from the ball within which the receiver traps it.
pub const TRAP_SUCCESS_RANGE_CM: u32 = 150;

/// What a tick of a pass reports.
#[derive(Debug, Clone, Copy, PartialEq, Eq, Structural)]
pub enum PassEvent {
    /// Nothing new.
    Continue,
    /// The ball left the passer's foot and arrives at `arrival_tick`.
    Started { arrival_tick: u64 },
    /// The receiver controls the ball.
    TrapSuccess,
    /// The ball reached the receiver, who failed to control it.
    TrapFailed,
    /// The receiver was too far from the ball.
    Missed,
}

/// One tick of a pass: the phase after it, what it reports, and whether the
/// kick happened on this tick (the moment shown to the viewer).
#[derive(Debug, Clone, Copy, PartialEq, Eq, Structural)]
pub struct PassStep {
    pub next: PassPhase,
    pub event: PassEvent,
    pub kicked: bool,
}

/// Ticks of flight, at least one.
pub open spec fn flight_or_one(flight_ticks: u64) -> int {
    if flight_ticks < 1 { 1 } else { flight_ticks as int }
}

/// One tick of a pass at `current_tick`: the windup counts down to the kick;
/// the kick starts the flight, `flight_ticks` long (at least one); the flight
/// ends at its arrival tick; on arrival the receiver, `receiver_gap_cm` from
/// the ball, traps it within 1.5 m, fails to within 3 m, and misses it beyond;
/// a finished pass stays finished.
pub open spec fn pass_step_spec(phase: PassPhase, current_tick: u64, flight_ticks: u64, receiver_gap_cm: u32) -> PassStep {
    match phase {
        PassPhase::Windup { remaining_ticks } => if remaining_ticks <= 1 {
            PassStep { next: PassPhase::Kick, event: PassEvent::Continue, kicked: true }
        } else {
            PassStep {
                next: PassPhase::Windup { remaining_ticks: (remaining_ticks - 1) as u8 },
                event: PassEvent::Continue,
                kicked: false,
            }
        },
        PassPhase::Kick => {
            let arrival = (current_tick + flight_or_one(flight_ticks)) as u64;
            PassStep {
                next: PassPhase::InFlight { arrival_tick: arrival },
                event: PassEvent::Started { arrival_tick: arrival },
                kicked: false,
            }
        },
        PassPhase::InFlight { arrival_tick } => PassStep {
            next: if current_tick >= arrival_tick { PassPhase::Arrival } else { phase },
            event: PassEvent::Continue,
            kicked: false,
        },
        PassPhase::Arrival => PassStep {
            next: PassPhase::Finished,
            event: if receiver_gap_cm < 150 {
                PassEvent::TrapSuccess
            } else if receiver_gap_cm < 300 {
                PassEvent::TrapFailed
            } else {
                PassEvent::Missed
            },
            kicked: false,
        },
        PassPhase::Finished => PassStep { next: PassPhase::Finished, event: PassEvent::Continue, kicked: false },
    }
}

/// One tick of a pass, as `pass_step_spec` states it.
pub fn pass_step(phase: PassPhase, current_tick: u64, flight_ticks: u64, receiver_gap_cm: u32) -> (r: PassStep)
    requires
        current_tick + flight_or_one(flight_ticks) <= u64::MAX,
    ensures
        r == pass_step_spec(phase, current_tick, flight_ticks, receiver_gap_cm),
{
    match phase {
        PassPhase::Windup { remaining_ticks } => {
            let remaining = remaining_ticks.saturating_sub(1);
            if remaining == 0 {
                PassStep { next: PassPhase::Kick, event: PassEvent::Continue, kicked: true }
            } else {
                PassStep { next: PassPhase::Windup { remaining_ticks: remaining }, event: PassEvent::Continue, kicked: false }
            }
        },
        PassPhase::Kick => {
            let flight = if flight_ticks < 1 { 1 } else { flight_ticks };
            let arrival_tick = current_tick + flight;
            PassStep {
                next: PassPhase::InFlight { arrival_tick },
                event: PassEvent::Started { arrival_tick },
                kicked: false,
            }
        },
        PassPhase::InFlight { arrival_tick } => {
            let next = if current_tick >= arrival_tick { PassPhase::Arrival } else { phase };
            PassStep { next, event: PassEvent::Continue, kicked: false }
        },
        PassPhase::Arrival => {
            let event = if receiver_gap_cm < TRAP_SUCCESS_RANGE_CM {
                PassEvent::TrapSuccess
            } else if receiver_gap_cm < TRAP_SUCCESS_RANGE_CM * 2 {
                PassEvent::TrapFailed
            } else {
                PassEvent::Missed
            };
            PassStep { next: PassPhase::Finished, event, kicked: false }
        },
        PassPhase::Finished => PassStep { next: PassPhase::Finished, event: PassEvent::Continue, kicked: false },
    }
}

/// A pass moves forward: a windup of `k` ticks reaches the kick after `k`
/// ticks (one at least), the ball always flies at least one tick, and the
/// kick is shown exactly once, on the tick the windup ends.
pub proof fn lemma_pass_progress(phase: PassPhase, current_tick: u64, flight_ticks: u64, gap: u32)
    requires
        current_tick + flight_or_one(flight_ticks) <= u64::MAX,
    ensures
        pass_step_spec(phase, current_tick, flight_ticks, gap).kicked <==> (phase is Windup
            && pass_step_spec(phase, current_tick, flight_ticks, gap).next == PassPhase::Kick),
        phase == PassPhase::Kick ==> (pass_step_spec(phase, current_tick, flight_ticks, gap).next matches PassPhase::InFlight { arrival_tick } && arrival_tick > current_tick),
        forall|k: u8|
            phase == (PassPhase::Windup { remaining_ticks: k }) && k > 1 ==> #[trigger] pass_step_spec(
                PassPhase::Windup { remaining_ticks: k },
                current_tick,
                flight_ticks,
                gap,
            ).next == (PassPhase::Windup { remaining_ticks: (k - 1) as u8 }),
        phase == PassPhase::Arrival ==> pass_step_spec(phase, current_tick, flight_ticks, gap).next == PassPhase::Finished
            && pass_step_spec(phase, current_tick, flight_ticks, gap).event != PassEvent::Continue,
{
}

} // verus!
