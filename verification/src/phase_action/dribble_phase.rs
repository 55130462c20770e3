//! The phases of a dribble and the rule that moves a dribble from one phase
//! to the next, tick by tick, on what the caller measured.
//!
//! Distances are in centimetres, ratios (space ahead, interception risk,
//! speed) in thousandths.
use vstd::prelude::*;
use crate::geometry::{Coord10, dist_sq, distance_sq};
use crate::phase_action::dribble::{DribbleIntent, DribbleTechnique, technique_duration};

verus! {

/// Distance of the nearest defender (cm) under which a dribbler evades.
pub const EVADE_TRIGGER_DISTANCE_CM: u32 = 200;

/// Separation of ball and player (cm) at which the ball can be touched.
pub const TOUCH_READY_DIST_CM: u32 = 45;

/// Separation (cm) at which a knocked-on ball is caught up with.
pub const KNOCKON_REGAIN_DIST_CM: u32 = 150;

/// Space ahead (thousandths) at or under which there is no room to run.
pub const SPACE_LOW_THRESHOLD_PM: u32 = 350;

/// Interception risk (thousandths) from which a run is too risky.
pub const INTERCEPT_RISK_HIGH_PM: u32 = 600;

/// Largest separation (cm) of ball and player in a dribble.
pub const DRIBBLE_MAX_SEPARATION_CM: u32 = 250;

/// Smallest separation (cm) of ball and player in a dribble.
pub const DRIBBLE_MIN_SEPARATION_CM: u32 = 30;

/// Distance (cm) beyond which the ball is out of the dribbler's control.
pub const DRIBBLE_CONTROL_RANGE_CM: u32 = 300;

/// Most ticks of the gather phase.
pub const MAX_GATHER_TICKS: u8 = 2;

/// Most ticks of the carry phase.
pub const MAX_CARRY_TICKS: u8 = 7;

/// Most ticks of the evade phase.
pub const MAX_EVADE_TICKS: u8 = 4;

/// Most ticks of a knock-and-run.
pub const MAX_KNOCKON_TICKS: u8 = 8;

/// Kind of touch shown to the viewer.
#[derive(Debug, Clone, Copy, PartialEq, Eq, Structural)]
pub enum DribbleTouchType {
    FirstTouch,
    Carry,
    KnockOn,
    Evade,
    Shielding,
    Turn,
    Feint,
    Hesitation,
}

/// How a take-on stands when it is shown.
#[derive(Debug, Clone, Copy, PartialEq, Eq, Structural)]
pub enum TakeOnOutcome {
    /// The defender is still within 1.5 m.
    InProgress,
    /// The dribbler got past.
    Success,
    /// The defender won the ball.
    Failed,
}

/// Phase of a dribble.
#[derive(Debug, Clone, Copy, PartialEq, Eq, Structural)]
pub enum DribblePhase {
    /// Getting ready for the first touch.
    Gather,
    /// Pushing the ball ahead.
    Touch,
    /// Running after the ball.
    Carry,
    /// Taking the ball again under close control.
    SyncBall,
    /// Turning away from a defender.
    Evade,
    /// Knocking the ball long and running after it.
    KnockAndRun { knock_distance_cm: u32 },
    /// Performing a technique, judged or not yet.
    ExecutingTechnique { technique: DribbleTechnique, success: Option<bool> },
    /// Over.
    Finished,
}

/// Name of a phase; a technique phase is named after its technique.
pub open spec fn dribble_phase_name(p: DribblePhase) -> Seq<char> {
    match p {
        DribblePhase::Gather => "Gather"@,
        DribblePhase::Touch => "Touch"@,
        DribblePhase::Carry => "Carry"@,
        DribblePhase::SyncBall => "SyncBall"@,
        DribblePhase::Evade => "Evade"@,
        DribblePhase::KnockAndRun { .. } => "KnockAndRun"@,
        DribblePhase::ExecutingTechnique { technique, .. } => match technique {
            DribbleTechnique::Shielding => "Shielding"@,
            DribbleTechnique::Turn => "Turn"@,
            DribbleTechnique::FaceUp => "FaceUp"@,
            DribbleTechnique::KnockOn => "KnockOn"@,
            DribbleTechnique::Feint => "Feint"@,
            DribbleTechnique::Hesitation => "Hesitation"@,
        },
        DribblePhase::Finished => "Finished"@,
    }
}

/// Most ticks a phase lasts before it is left anyway.
pub open spec fn phase_cap(p: DribblePhase) -> u8 {
    match p {
        DribblePhase::Gather => 2,
        DribblePhase::Touch => 1,
        DribblePhase::Carry => 7,
        DribblePhase::SyncBall => 1,
        DribblePhase::Evade => 4,
        DribblePhase::KnockAndRun { .. } => 8,
        DribblePhase::ExecutingTechnique { technique, .. } => technique_duration(technique),
        DribblePhase::Finished => 0,
    }
}

impl DribblePhase {
    /// Name of the phase.
    pub fn name(&self) -> (r: &'static str)
        ensures
            r@ == dribble_phase_name(*self),
    {
        match self {
            DribblePhase::Gather => "Gather",
            DribblePhase::Touch => "Touch",
            DribblePhase::Carry => "Carry",
            DribblePhase::SyncBall => "SyncBall",
            DribblePhase::Evade => "Evade",
            DribblePhase::KnockAndRun { .. } => "KnockAndRun",
            DribblePhase::ExecutingTechnique { technique, .. } => match technique {
                DribbleTechnique::Shielding => "Shielding",
                DribbleTechnique::Turn => "Turn",
                DribbleTechnique::FaceUp => "FaceUp",
                DribbleTechnique::KnockOn => "KnockOn",
                DribbleTechnique::Feint => "Feint",
                DribbleTechnique::Hesitation => "Hesitation",
            },
            DribblePhase::Finished => "Finished",
        }
    }

    /// Whether the dribble is still running.
    pub fn is_active(&self) -> (r: bool)
        ensures
            r == !(*self is Finished),
    {
        !matches!(self, DribblePhase::Finished)
    }

    /// Most ticks the phase lasts: gather 2, touch 1, carry 7, sync 1, evade
    /// 4, knock-and-run 8, a technique its duration.
    pub fn max_ticks(&self) -> (r: u8)
        ensures
            r == phase_cap(*self),
    {
        match self {
            DribblePhase::Gather => MAX_GATHER_TICKS,
            DribblePhase::Touch => 1,
            DribblePhase::Carry => MAX_CARRY_TICKS,
            DribblePhase::SyncBall => 1,
            DribblePhase::Evade => MAX_EVADE_TICKS,
            DribblePhase::KnockAndRun { .. } => MAX_KNOCKON_TICKS,
            DribblePhase::ExecutingTechnique { technique, .. } => technique.duration_ticks(),
            DribblePhase::Finished => 0,
        }
    }
}

/// What the caller measured around the dribbler on one tick.
#[derive(Debug, Clone, Copy, PartialEq, Eq, Structural)]
pub struct DribbleObs {
    /// Separation of ball and player (cm).
    pub sep_cm: u32,
    /// Distance of the nearest defender (cm).
    pub defender_dist_cm: u32,
    /// Free space ahead (thousandths).
    pub space_ahead_pm: u32,
    /// Risk of an interception (thousandths).
    pub intercept_risk_pm: u32,
    /// Why the player dribbles.
    pub intent: DribbleIntent,
    /// Whether there is room to evade.
    pub can_evade: bool,
    /// Speed as a share of top speed (thousandths).
    pub speed_ratio_pm: u32,
    /// Index of the nearest defender, if known.
    pub nearest_defender_idx: Option<usize>,
}

impl DribbleObs {
    /// Measurements of a safe situation: the ball at 0.5 m, no defender
    /// within 10 m, plenty of space ahead (0.8), little risk (0.1), a
    /// progressing dribbler at 0.8 of top speed with room to evade.
    pub fn safe() -> (r: DribbleObs)
        ensures
            r == (DribbleObs {
                sep_cm: 50,
                defender_dist_cm: 1000,
                space_ahead_pm: 800,
                intercept_risk_pm: 100,
                intent: DribbleIntent::Progress,
                can_evade: true,
                speed_ratio_pm: 800,
                nearest_defender_idx: None,
            }),
    {
        DribbleObs {
            sep_cm: 50,
            defender_dist_cm: 1000,
            space_ahead_pm: 800,
            intercept_risk_pm: 100,
            intent: DribbleIntent::Progress,
            can_evade: true,
            speed_ratio_pm: 800,
            nearest_defender_idx: None,
        }
    }
}

/// A knock-on pays: progress intent, room ahead (650 thousandths or more),
/// no defender within 2 m, and at least 800 thousandths of top speed.
pub open spec fn knockon_wanted(o: DribbleObs) -> bool {
    o.intent == DribbleIntent::Progress && o.space_ahead_pm >= 650 && o.defender_dist_cm > 200
        && o.speed_ratio_pm >= 800
}

/// A technique is called for: to protect, a defender within 1.4 m; to
/// progress, too little space ahead; to beat, a defender within 1.6 m.
pub open spec fn technique_wanted(o: DribbleObs) -> bool {
    match o.intent {
        DribbleIntent::Protect => o.defender_dist_cm <= 140,
        DribbleIntent::Progress => o.space_ahead_pm < 350,
        DribbleIntent::Beat => o.defender_dist_cm <= 160,
    }
}

/// Evading is called for: beat intent, a defender within 2 m, room to evade.
pub open spec fn evade_wanted(o: DribbleObs) -> bool {
    o.intent == DribbleIntent::Beat && o.defender_dist_cm <= 200 && o.can_evade
}

/// Whether a knock-on pays.
pub fn should_knockon(obs: &DribbleObs) -> (r: bool)
    ensures
        r == knockon_wanted(*obs),
{
    matches!(obs.intent, DribbleIntent::Progress) && obs.space_ahead_pm >= 650 && obs.defender_dist_cm
        > EVADE_TRIGGER_DISTANCE_CM && obs.speed_ratio_pm >= 800
}

/// Whether the situation calls for a technique.
pub fn should_execute_technique(obs: &DribbleObs) -> (r: bool)
    ensures
        r == technique_wanted(*obs),
{
    match obs.intent {
        DribbleIntent::Protect => obs.defender_dist_cm <= 140,
        DribbleIntent::Progress => obs.space_ahead_pm < SPACE_LOW_THRESHOLD_PM,
        DribbleIntent::Beat => obs.defender_dist_cm <= 160,
    }
}

/// Whether the dribbler should evade.
pub fn should_evade(obs: &DribbleObs) -> (r: bool)
    ensures
        r == evade_wanted(*obs),
{
    matches!(obs.intent, DribbleIntent::Beat) && obs.defender_dist_cm <= EVADE_TRIGGER_DISTANCE_CM
        && obs.can_evade
}

/// What a tick of a dribble gives back.
#[derive(Debug, Clone, Copy, PartialEq, Eq, Structural)]
pub enum DribbleResult {
    /// The dribble goes on.
    Continue,
    /// The ball got away (it lies loose where it is).
    Lost,
    /// The dribble is over.
    Completed,
}

/// A touch to show to the viewer.
#[derive(Debug, Clone, Copy, PartialEq, Eq, Structural)]
pub enum DribbleEvent {
    /// An ordinary touch.
    Touch { touch_type: DribbleTouchType },
    /// A take-on of the nearest defender.
    TakeOn { touch_type: DribbleTouchType, outcome: TakeOnOutcome },
}

/// One tick of a dribble: the phase after it, the result, and the touch to
/// show, if any.
#[derive(Debug, Clone, Copy, PartialEq, Eq, Structural)]
pub struct DribbleStep {
    pub next: DribblePhase,
    pub result: DribbleResult,
    pub event: Option<DribbleEvent>,
}

/// Length (cm) of a knock-on: 3 m plus 2 m times the space ahead.
pub open spec fn knock_length(o: DribbleObs) -> u32 {
    (300 + o.space_ahead_pm / 5) as u32
}

/// A step that keeps dribbling.
pub open spec fn go(next: DribblePhase) -> DribbleStep {
    DribbleStep { next, result: DribbleResult::Continue, event: None }
}

/// A step that loses the ball.
pub open spec fn lose() -> DribbleStep {
    DribbleStep { next: DribblePhase::Finished, result: DribbleResult::Lost, event: None }
}

/// The touch shown on the touch tick: a take-on when beating a known
/// defender (in progress within 1.5 m, past beyond), an ordinary touch
/// otherwise; a knock-on when one pays, a carry touch otherwise.
pub open spec fn touch_event(o: DribbleObs) -> DribbleEvent {
    let tt = if knockon_wanted(o) { DribbleTouchType::KnockOn } else { DribbleTouchType::Carry };
    if o.intent == DribbleIntent::Beat && o.nearest_defender_idx is Some {
        DribbleEvent::TakeOn {
            touch_type: tt,
            outcome: if o.defender_dist_cm < 150 { TakeOnOutcome::InProgress } else { TakeOnOutcome::Success },
        }
    } else {
        DribbleEvent::Touch { touch_type: tt }
    }
}

/// One tick of a dribble in phase `p`, `age` ticks after entering it, with
/// the measurements `o` and the distance `ball_dist` (cm) between player and
/// ball:
/// - gather: on to touch (showing the first touch) once the ball is within
///   55 cm or the phase has lasted its cap;
/// - touch: on to a knock-and-run when a knock-on pays, to carry otherwise;
/// - carry: the ball is lost beyond 3 m; then, in order, sync within 45 cm,
///   evade when called for, touch when a defender presses a player not
///   beating him, knock-and-run when it pays, touch at the cap;
/// - sync: touch under 80 cm, carry under 2.5 m, the ball is lost beyond;
/// - evade: carry when no longer needed and the ball within 3 m, touch within
///   45 cm or at the cap;
/// - knock-and-run: touch once within 1.5 m of the ball; the ball is lost
///   beyond the knock length plus 2.5 m; evade or touch when the risk is high,
///   the room short or evading called for; touch at the cap;
/// - a technique: touch when it succeeded, the ball lost when it failed,
///   touch at the cap without a judgement;
/// - finished: the dribble is completed.
pub open spec fn dribble_step(p: DribblePhase, age: u8, o: DribbleObs, ball_dist: u32) -> DribbleStep {
    match p {
        DribblePhase::Gather => if o.sep_cm <= 55 || age >= 2 {
            DribbleStep {
                next: DribblePhase::Touch,
                result: DribbleResult::Continue,
                event: Some(DribbleEvent::Touch { touch_type: DribbleTouchType::FirstTouch }),
            }
        } else {
            go(p)
        },
        DribblePhase::Touch => DribbleStep {
            next: if knockon_wanted(o) {
                DribblePhase::KnockAndRun { knock_distance_cm: knock_length(o) }
            } else {
                DribblePhase::Carry
            },
            result: DribbleResult::Continue,
            event: Some(touch_event(o)),
        },
        DribblePhase::Carry => if ball_dist > 300 {
            lose()
        } else if o.sep_cm <= 45 {
            go(DribblePhase::SyncBall)
        } else if evade_wanted(o) {
            go(DribblePhase::Evade)
        } else if o.defender_dist_cm <= 200 && o.intent != DribbleIntent::Beat {
            go(DribblePhase::Touch)
        } else if knockon_wanted(o) {
            go(DribblePhase::KnockAndRun { knock_distance_cm: knock_length(o) })
        } else if age >= 7 {
            go(DribblePhase::Touch)
        } else {
            go(p)
        },
        DribblePhase::SyncBall => if ball_dist < 80 {
            go(DribblePhase::Touch)
        } else if ball_dist < 250 {
            go(DribblePhase::Carry)
        } else {
            lose()
        },
        DribblePhase::Evade => if !evade_wanted(o) && o.sep_cm <= 300 {
            go(DribblePhase::Carry)
        } else if o.sep_cm <= 45 || age >= 4 {
            go(DribblePhase::Touch)
        } else {
            go(p)
        },
        DribblePhase::KnockAndRun { knock_distance_cm } => if o.sep_cm <= 150 {
            go(DribblePhase::Touch)
        } else if ball_dist > knock_distance_cm + 250 {
            lose()
        } else if o.intercept_risk_pm >= 600 || o.space_ahead_pm <= 350 || evade_wanted(o) {
            go(if evade_wanted(o) { DribblePhase::Evade } else { DribblePhase::Touch })
        } else if age >= 8 {
            go(DribblePhase::Touch)
        } else {
            go(p)
        },
        DribblePhase::ExecutingTechnique { technique, success } => match success {
            Some(true) => go(DribblePhase::Touch),
            Some(false) => lose(),
            None => if age >= technique_duration(technique) {
                go(DribblePhase::Touch)
            } else {
                go(p)
            },
        },
        DribblePhase::Finished => DribbleStep {
            next: DribblePhase::Finished,
            result: DribbleResult::Completed,
            event: None,
        },
    }
}

/// The touch shown on the touch tick.
fn touch_event_of(obs: &DribbleObs) -> (r: DribbleEvent)
    ensures
        r == touch_event(*obs),
{
    let tt = if should_knockon(obs) { DribbleTouchType::KnockOn } else { DribbleTouchType::Carry };
    if matches!(obs.intent, DribbleIntent::Beat) && obs.nearest_defender_idx.is_some() {
        let outcome = if obs.defender_dist_cm < 150 { TakeOnOutcome::InProgress } else { TakeOnOutcome::Success };
        DribbleEvent::TakeOn { touch_type: tt, outcome }
    } else {
        DribbleEvent::Touch { touch_type: tt }
    }
}

/// Length (cm) of a knock-on from the space ahead.
fn knock_length_of(obs: &DribbleObs) -> (r: u32)
    ensures
        r == knock_length(*obs),
{
    300 + obs.space_ahead_pm / 5
}

/// One tick of a dribble, as `dribble_step` states it, from the phase, the
/// ticks spent in it, the measurements and the player-ball distance (cm).
pub fn next_dribble_step(phase: DribblePhase, age: u8, obs: &DribbleObs, ball_dist_cm: u32) -> (r: DribbleStep)
    ensures
        r == dribble_step(phase, age, *obs, ball_dist_cm),
{
    let stay = DribbleStep { next: phase, result: DribbleResult::Continue, event: None };
    match phase {
        DribblePhase::Gather => {
            if obs.sep_cm <= TOUCH_READY_DIST_CM + 10 || age >= MAX_GATHER_TICKS {
                DribbleStep {
                    next: DribblePhase::Touch,
                    result: DribbleResult::Continue,
                    event: Some(DribbleEvent::Touch { touch_type: DribbleTouchType::FirstTouch }),
                }
            } else {
                stay
            }
        },
        DribblePhase::Touch => {
            let event = touch_event_of(obs);
            let next = if should_knockon(obs) {
                DribblePhase::KnockAndRun { knock_distance_cm: knock_length_of(obs) }
            } else {
                DribblePhase::Carry
            };
            DribbleStep { next, result: DribbleResult::Continue, event: Some(event) }
        },
        DribblePhase::Carry => {
            if ball_dist_cm > DRIBBLE_CONTROL_RANGE_CM {
                DribbleStep { next: DribblePhase::Finished, result: DribbleResult::Lost, event: None }
            } else {
                let next = if obs.sep_cm <= TOUCH_READY_DIST_CM {
                    DribblePhase::SyncBall
                } else if should_evade(obs) {
                    DribblePhase::Evade
                } else if obs.defender_dist_cm <= EVADE_TRIGGER_DISTANCE_CM && !matches!(
                    obs.intent,
                    DribbleIntent::Beat
                ) {
                    DribblePhase::Touch
                } else if should_knockon(obs) {
                    DribblePhase::KnockAndRun { knock_distance_cm: knock_length_of(obs) }
                } else if age >= MAX_CARRY_TICKS {
                    DribblePhase::Touch
                } else {
                    phase
                };
                DribbleStep { next, result: DribbleResult::Continue, event: None }
            }
        },
        DribblePhase::SyncBall => {
            if ball_dist_cm < DRIBBLE_MIN_SEPARATION_CM + 50 {
                DribbleStep { next: DribblePhase::Touch, result: DribbleResult::Continue, event: None }
            } else if ball_dist_cm < DRIBBLE_MAX_SEPARATION_CM {
                DribbleStep { next: DribblePhase::Carry, result: DribbleResult::Continue, event: None }
            } else {
                DribbleStep { next: DribblePhase::Finished, result: DribbleResult::Lost, event: None }
            }
        },
        DribblePhase::Evade => {
            let next = if !should_evade(obs) && obs.sep_cm <= DRIBBLE_CONTROL_RANGE_CM {
                DribblePhase::Carry
            } else if obs.sep_cm <= TOUCH_READY_DIST_CM || age >= MAX_EVADE_TICKS {
                DribblePhase::Touch
            } else {
                phase
            };
            DribbleStep { next, result: DribbleResult::Continue, event: None }
        },
        DribblePhase::KnockAndRun { knock_distance_cm } => {
            if obs.sep_cm <= KNOCKON_REGAIN_DIST_CM {
                DribbleStep { next: DribblePhase::Touch, result: DribbleResult::Continue, event: None }
            } else if ball_dist_cm as u64 > knock_distance_cm as u64 + DRIBBLE_MAX_SEPARATION_CM as u64 {
                DribbleStep { next: DribblePhase::Finished, result: DribbleResult::Lost, event: None }
            } else {
                let evade = should_evade(obs);
                let next = if obs.intercept_risk_pm >= INTERCEPT_RISK_HIGH_PM || obs.space_ahead_pm
                    <= SPACE_LOW_THRESHOLD_PM || evade {
                    if evade {
                        DribblePhase::Evade
                    } else {
                        DribblePhase::Touch
                    }
                } else if age >= MAX_KNOCKON_TICKS {
                    DribblePhase::Touch
                } else {
                    phase
                };
                DribbleStep { next, result: DribbleResult::Continue, event: None }
            }
        },
        DribblePhase::ExecutingTechnique { technique, success } => {
            match success {
                Some(true) => DribbleStep {
                    next: DribblePhase::Touch,
                    result: DribbleResult::Continue,
                    event: None,
                },
                Some(false) => DribbleStep {
                    next: DribblePhase::Finished,
                    result: DribbleResult::Lost,
                    event: None,
                },
                None => {
                    if age >= technique.duration_ticks() {
                        DribbleStep { next: DribblePhase::Touch, result: DribbleResult::Continue, event: None }
                    } else {
                        stay
                    }
                },
            }
        },
        DribblePhase::Finished => DribbleStep {
            next: DribblePhase::Finished,
            result: DribbleResult::Completed,
            event: None,
        },
    }
}

/// Ticks spent in a phase entered at `phase_enter_tick`, as a byte (the
/// count wraps past 255; none before the phase was entered).
pub fn phase_age(current_tick: u64, phase_enter_tick: u64) -> (r: u8)
    ensures
        r == (if current_tick >= phase_enter_tick { (current_tick - phase_enter_tick) as u8 } else { 0u8 }),
{
    if current_tick >= phase_enter_tick {
        (current_tick - phase_enter_tick) as u8
    } else {
        0
    }
}

/// A judged technique: the technique phase takes the judgement; any other
/// phase stays as it is.
pub fn with_technique_result(phase: DribblePhase, succeeded: bool) -> (r: DribblePhase)
    ensures
        r == match phase {
            DribblePhase::ExecutingTechnique { technique, .. } => DribblePhase::ExecutingTechnique {
                technique,
                success: Some(succeeded),
            },
            _ => phase,
        },
{
    match phase {
        DribblePhase::ExecutingTechnique { technique, .. } => DribblePhase::ExecutingTechnique {
            technique,
            success: Some(succeeded),
        },
        _ => phase,
    }
}

/// A player may start a dribble when having the ball within 2.5 m.
pub fn can_start_dribble(player_pos: Coord10, ball_pos: Coord10, has_ball: bool) -> (r: bool)
    ensures
        r == (has_ball && dist_sq(player_pos, ball_pos) < 625),
{
    if !has_ball {
        return false;
    }
    distance_sq(player_pos, ball_pos) < 625
}

/// Whether two phases are of the same kind, whatever they carry.
pub open spec fn same_kind(a: DribblePhase, b: DribblePhase) -> bool {
    match (a, b) {
        (DribblePhase::Gather, DribblePhase::Gather) => true,
        (DribblePhase::Touch, DribblePhase::Touch) => true,
        (DribblePhase::Carry, DribblePhase::Carry) => true,
        (DribblePhase::SyncBall, DribblePhase::SyncBall) => true,
        (DribblePhase::Evade, DribblePhase::Evade) => true,
        (DribblePhase::KnockAndRun { .. }, DribblePhase::KnockAndRun { .. }) => true,
        (DribblePhase::ExecutingTechnique { .. }, DribblePhase::ExecutingTechnique { .. }) => true,
        (DribblePhase::Finished, DribblePhase::Finished) => true,
        _ => false,
    }
}

/// No phase outlasts its cap: once a running phase has lasted its most
/// ticks, the next tick leaves it, whatever was measured.
pub proof fn lemma_phase_cap_leaves(p: DribblePhase, age: u8, o: DribbleObs, ball_dist: u32)
    requires
        !(p is Finished),
        age >= phase_cap(p),
    ensures
        !same_kind(dribble_step(p, age, o, ball_dist).next, p),
{
}

/// The ball is lost only when the dribble ends, the end is final, and a
/// finished dribble reports completion.
pub proof fn lemma_lost_ends_dribble(p: DribblePhase, age: u8, o: DribbleObs, ball_dist: u32)
    ensures
        dribble_step(p, age, o, ball_dist).result == DribbleResult::Lost ==> dribble_step(
            p,
            age,
            o,
            ball_dist,
        ).next == DribblePhase::Finished,
        p is Finished ==> dribble_step(p, age, o, ball_dist).next == DribblePhase::Finished
            && dribble_step(p, age, o, ball_dist).result == DribbleResult::Completed,
        !(p is Finished) ==> dribble_step(p, age, o, ball_dist).result != DribbleResult::Completed,
{
}

/// Only the touch tick, and the gather tick that leads to it, show a touch.
pub proof fn lemma_touch_events(p: DribblePhase, age: u8, o: DribbleObs, ball_dist: u32)
    ensures
        dribble_step(p, age, o, ball_dist).event is Some ==> (p is Touch || (p is Gather
            && dribble_step(p, age, o, ball_dist).next is Touch)),
        p is Touch ==> dribble_step(p, age, o, ball_dist).event is Some,
{
}

} // verus!
