//! Phase machine of a tackle.
//!
//! ```text
//! Approach -> Commit -> CollisionCheck -> Outcome -> Recovery -> Cooldown -> Finished
//! ```
//! An approach that runs out far from the target ends at once in a miss.
//! Movement, distances and the dice roll of the collision are measured by the
//! caller and handed in each tick; the machine decides the phases.
use vstd::prelude::*;
use crate::attributes::PlayerAttributes;
use crate::geometry::Coord10;
use crate::phase_action::action_types::{
    action_kind_of, commit_ticks_of, lock_ms_of, viewer_outcome_of, TackleActionKind, TackleEvent,
    TackleOutcome, TackleType, ViewerTackleOutcome,
};
use crate::phase_action::duration::{
    tackle_approach_ticks, TACKLE_COOLDOWN_TICKS, TACKLE_RECOVERY_CLEAN_TICKS,
    TACKLE_RECOVERY_DEFLECT_TICKS, TACKLE_RECOVERY_FOUL_TICKS, TACKLE_RECOVERY_MISS_TICKS,
};

verus! {

/// Phase of a tackle.
#[derive(Debug, Clone, Copy, PartialEq, Eq, Structural)]
pub enum TacklePhase {
    /// Running at the target.
    Approach { remaining_ticks: u8 },
    /// Going to ground or leaning in; the tackler cannot move.
    Commit { remaining_ticks: u8 },
    /// The tick where the contact is judged.
    CollisionCheck,
    /// The judged result, handed out on the next tick.
    Outcome(TackleOutcome),
    /// Getting up.
    Recovery { remaining_ticks: u8 },
    /// No new tackle yet.
    Cooldown { remaining_ticks: u8 },
    /// Over.
    Finished,
}

/// Name of a phase.
pub open spec fn phase_name(p: TacklePhase) -> Seq<char> {
    match p {
        TacklePhase::Approach { .. } => "Approach"@,
        TacklePhase::Commit { .. } => "Commit"@,
        TacklePhase::CollisionCheck => "CollisionCheck"@,
        TacklePhase::Outcome(_) => "Outcome"@,
        TacklePhase::Recovery { .. } => "Recovery"@,
        TacklePhase::Cooldown { .. } => "Cooldown"@,
        TacklePhase::Finished => "Finished"@,
    }
}

impl TacklePhase {
    /// Whether the tackle is still running.
    pub fn is_active(&self) -> (r: bool)
        ensures
            r == (*self != TacklePhase::Finished),
    {
        match self {
            TacklePhase::Finished => false,
            _ => true,
        }
    }

    /// Name of the phase.
    pub fn name(&self) -> (r: &'static str)
        ensures
            r@ == phase_name(*self),
    {
        match self {
            TacklePhase::Approach { .. } => "Approach",
            TacklePhase::Commit { .. } => "Commit",
            TacklePhase::CollisionCheck => "CollisionCheck",
            TacklePhase::Outcome(_) => "Outcome",
            TacklePhase::Recovery { .. } => "Recovery",
            TacklePhase::Cooldown { .. } => "Cooldown",
            TacklePhase::Finished => "Finished",
        }
    }
}

/// What the caller measured for one tick of a tackle.
#[derive(Debug, Clone, Copy, PartialEq, Eq, Structural)]
pub struct TackleTick {
    /// After this tick's movement, the tackler is within 1.5 m of the target.
    pub closing_in: bool,
    /// After this tick's movement, the tackler is within 5 m of the target.
    pub in_range: bool,
    /// The judged contact, needed on the collision tick.
    pub collision: Option<TackleOutcome>,
}

/// Recovery ticks after each outcome: 4 clean, 8 deflected, 12 missed,
/// 16 after a foul with or without a card.
pub open spec fn recovery_ticks_of(o: TackleOutcome) -> u8 {
    match o {
        TackleOutcome::CleanWin => 4,
        TackleOutcome::Deflection => 8,
        TackleOutcome::Miss => 12,
        TackleOutcome::Foul | TackleOutcome::YellowCard | TackleOutcome::RedCard => 16,
    }
}

/// One tick less, not below zero.
pub open spec fn dec(r: u8) -> u8 {
    if r == 0 { 0 } else { (r - 1) as u8 }
}

/// The phase after one tick.
pub open spec fn next_phase(p: TacklePhase, t: TackleType, obs: TackleTick) -> TacklePhase {
    match p {
        TacklePhase::Approach { remaining_ticks } => if obs.closing_in || dec(remaining_ticks) == 0 {
            if obs.in_range {
                TacklePhase::Commit { remaining_ticks: commit_ticks_of(t) }
            } else {
                TacklePhase::Outcome(TackleOutcome::Miss)
            }
        } else {
            TacklePhase::Approach { remaining_ticks: dec(remaining_ticks) }
        },
        TacklePhase::Commit { remaining_ticks } => if dec(remaining_ticks) == 0 {
            TacklePhase::CollisionCheck
        } else {
            TacklePhase::Commit { remaining_ticks: dec(remaining_ticks) }
        },
        TacklePhase::CollisionCheck => TacklePhase::Outcome(obs.collision.unwrap()),
        TacklePhase::Outcome(o) => TacklePhase::Recovery { remaining_ticks: recovery_ticks_of(o) },
        TacklePhase::Recovery { remaining_ticks } => if dec(remaining_ticks) == 0 {
            TacklePhase::Cooldown { remaining_ticks: 24 }
        } else {
            TacklePhase::Recovery { remaining_ticks: dec(remaining_ticks) }
        },
        TacklePhase::Cooldown { remaining_ticks } => if dec(remaining_ticks) == 0 {
            TacklePhase::Finished
        } else {
            TacklePhase::Cooldown { remaining_ticks: dec(remaining_ticks) }
        },
        TacklePhase::Finished => TacklePhase::Finished,
    }
}

/// The recorded outcome after one tick: set when the phase turns to an outcome.
pub open spec fn next_outcome(p: TacklePhase, recorded: Option<TackleOutcome>, t: TackleType, obs: TackleTick) -> Option<
    TackleOutcome,
> {
    match next_phase(p, t, obs) {
        TacklePhase::Outcome(o) => Some(o),
        _ => recorded,
    }
}

/// What one tick hands out: the outcome, on the tick after it was judged.
pub open spec fn tick_result(p: TacklePhase) -> Option<TackleOutcome> {
    match p {
        TacklePhase::Outcome(o) => Some(o),
        _ => None,
    }
}

/// Ticks a tackle of type `t` can still last at most from a phase: up to
/// the remaining approach, the commit ticks of the type, one tick each for the
/// collision and the outcome, up to 16 of recovery and 24 of cooldown.
pub open spec fn ticks_bound(p: TacklePhase, t: TackleType) -> nat {
    match p {
        TacklePhase::Approach { remaining_ticks } => (42 + commit_ticks_of(t) + remaining_ticks) as nat,
        TacklePhase::Commit { remaining_ticks } => (42 + remaining_ticks) as nat,
        TacklePhase::CollisionCheck => 42,
        TacklePhase::Outcome(_) => 41,
        TacklePhase::Recovery { remaining_ticks } => (24 + remaining_ticks) as nat,
        TacklePhase::Cooldown { remaining_ticks } => remaining_ticks as nat,
        TacklePhase::Finished => 0,
    }
}

/// Every countdown of a phase lies in its range.
pub open spec fn phase_in_range(p: TacklePhase) -> bool {
    match p {
        TacklePhase::Approach { remaining_ticks } => 1 <= remaining_ticks <= 20,
        TacklePhase::Commit { remaining_ticks } => 1 <= remaining_ticks <= 4,
        TacklePhase::Recovery { remaining_ticks } => 1 <= remaining_ticks <= 16,
        TacklePhase::Cooldown { remaining_ticks } => 1 <= remaining_ticks <= 24,
        _ => true,
    }
}

/// The phase after one tick per observation of `obs`, in order.
pub open spec fn phase_after(p: TacklePhase, t: TackleType, obs: Seq<TackleTick>) -> TacklePhase
    decreases obs.len(),
{
    if obs.len() == 0 {
        p
    } else {
        phase_after(next_phase(p, t, obs[0]), t, obs.drop_first())
    }
}

/// Whether every tick of `obs` that meets the collision carries its result,
/// as `update_tick` requires.
pub open spec fn collisions_judged(p: TacklePhase, t: TackleType, obs: Seq<TackleTick>) -> bool
    decreases obs.len(),
{
    if obs.len() == 0 {
        true
    } else {
        (p == TacklePhase::CollisionCheck ==> obs[0].collision.is_some()) && collisions_judged(
            next_phase(p, t, obs[0]),
            t,
            obs.drop_first(),
        )
    }
}

/// Cooldown ticks left in a phase: the countdown while cooling down, none
/// once over, the full 24 before the cooldown has started.
pub open spec fn cooldown_left(p: TacklePhase) -> u8 {
    match p {
        TacklePhase::Cooldown { remaining_ticks } => remaining_ticks,
        TacklePhase::Finished => 0,
        _ => 24,
    }
}

/// A running tackle.
#[derive(Debug, Clone, Copy)]
pub struct TackleAction {
    pub id: u64,
    pub tackler_idx: usize,
    pub tackler_team: u32,
    pub target_idx: usize,
    pub tackle_type: TackleType,
    pub phase: TacklePhase,
    pub start_tick: u64,
    /// The judged outcome, once there is one.
    pub outcome: Option<TackleOutcome>,
    /// A viewer event waiting to be collected.
    pub pending_viewer_event: Option<TackleEvent>,
    /// Tackling rating of the tackler (0-99).
    pub tackling: u8,
    /// Aggression rating of the tackler (0-99).
    pub aggression: u8,
    /// Strength rating of the tackler (0-99).
    pub strength: u8,
}

impl TackleAction {
    /// The phase and the recorded outcome agree, and every countdown lies in
    /// its range.
    pub open spec fn wf(self) -> bool {
        match self.phase {
            TacklePhase::Approach { remaining_ticks } => 1 <= remaining_ticks <= 20
                && self.outcome.is_none(),
            TacklePhase::Commit { remaining_ticks } => 1 <= remaining_ticks <= 4 && self.outcome.is_none(),
            TacklePhase::CollisionCheck => self.outcome.is_none(),
            TacklePhase::Outcome(o) => self.outcome == Some(o),
            TacklePhase::Recovery { remaining_ticks } => 1 <= remaining_ticks <= 16
                && self.outcome.is_some(),
            TacklePhase::Cooldown { remaining_ticks } => 1 <= remaining_ticks <= 24
                && self.outcome.is_some(),
            TacklePhase::Finished => self.outcome.is_some(),
        }
    }

    /// A tackle that starts its approach at `distance` (0.1 m) from the target:
    /// one approach tick per metre at 4 m/s, rounded up, from 1 to 20.
    pub fn new(
        id: u64,
        tackler_idx: usize,
        tackler_team: u32,
        target_idx: usize,
        tackle_type: TackleType,
        distance: u32,
        start_tick: u64,
    ) -> (r: TackleAction)
        ensures
            r.wf(),
            r.id == id,
            r.tackler_idx == tackler_idx,
            r.tackler_team == tackler_team,
            r.target_idx == target_idx,
            r.tackle_type == tackle_type,
            r.start_tick == start_tick,
            r.phase == (TacklePhase::Approach {
                remaining_ticks: if distance == 0 {
                    1
                } else if (distance + 9) / 10 > 20 {
                    20
                } else {
                    ((distance + 9) / 10) as u8
                },
            }),
            r.outcome.is_none(),
            r.pending_viewer_event.is_none(),
            r.tackling == 0,
            r.aggression == 0,
            r.strength == 0,
    {
        let approach_ticks = tackle_approach_ticks(distance);
        TackleAction {
            id,
            tackler_idx,
            tackler_team,
            target_idx,
            tackle_type,
            phase: TacklePhase::Approach { remaining_ticks: approach_ticks },
            start_tick,
            outcome: None,
            pending_viewer_event: None,
            tackling: 0,
            aggression: 0,
            strength: 0,
        }
    }

    /// A tackle as `new` makes it, carrying the tackler's tackling,
    /// aggression and strength.
    pub fn new_with_attrs(
        id: u64,
        tackler_idx: usize,
        tackler_team: u32,
        target_idx: usize,
        tackle_type: TackleType,
        distance: u32,
        start_tick: u64,
        attrs: &PlayerAttributes,
    ) -> (r: TackleAction)
        ensures
            r == (TackleAction {
                tackling: attrs.tackling,
                aggression: attrs.aggression,
                strength: attrs.strength,
                ..TackleAction::new_spec(id, tackler_idx, tackler_team, target_idx, tackle_type, distance, start_tick)
            }),
            r.wf(),
    {
        let mut action = Self::new(id, tackler_idx, tackler_team, target_idx, tackle_type, distance, start_tick);
        action.tackling = attrs.tackling;
        action.aggression = attrs.aggression;
        action.strength = attrs.strength;
        action
    }

    /// The tackle that `new` makes.
    pub open spec fn new_spec(
        id: u64,
        tackler_idx: usize,
        tackler_team: u32,
        target_idx: usize,
        tackle_type: TackleType,
        distance: u32,
        start_tick: u64,
    ) -> TackleAction {
        TackleAction {
            id,
            tackler_idx,
            tackler_team,
            target_idx,
            tackle_type,
            phase: TacklePhase::Approach {
                remaining_ticks: if distance == 0 {
                    1
                } else if (distance + 9) / 10 > 20 {
                    20
                } else {
                    ((distance + 9) / 10) as u8
                },
            },
            start_tick,
            outcome: None,
            pending_viewer_event: None,
            tackling: 0,
            aggression: 0,
            strength: 0,
        }
    }

    /// Advances the tackle by one tick and returns the outcome on the tick it
    /// is handed out (the tick after the collision was judged, or after an
    /// approach that ran out of range).
    ///
    /// Approach counts down and commits once the tackler is within 1.5 m or
    /// time is up, provided the tackler is within 5 m (a miss otherwise);
    /// Commit counts down to the collision; the collision records the judged
    /// outcome; the outcome leads to a recovery whose length depends on it;
    /// recovery leads to a 24-tick cooldown, and the cooldown to the end.
    pub fn update_tick(&mut self, obs: TackleTick) -> (r: Option<TackleOutcome>)
        requires
            old(self).phase == TacklePhase::CollisionCheck ==> obs.collision.is_some(),
        ensures
            final(self).phase == next_phase(old(self).phase, old(self).tackle_type, obs),
            final(self).outcome == next_outcome(old(self).phase, old(self).outcome, old(self).tackle_type, obs),
            r == tick_result(old(self).phase),
            final(self).id == old(self).id,
            final(self).tackler_idx == old(self).tackler_idx,
            final(self).tackler_team == old(self).tackler_team,
            final(self).target_idx == old(self).target_idx,
            final(self).tackle_type == old(self).tackle_type,
            final(self).start_tick == old(self).start_tick,
            final(self).pending_viewer_event == old(self).pending_viewer_event,
            final(self).tackling == old(self).tackling,
            final(self).aggression == old(self).aggression,
            final(self).strength == old(self).strength,
    {
        match self.phase {
            TacklePhase::Approach { remaining_ticks } => {
                let remaining = remaining_ticks.saturating_sub(1);
                self.phase = TacklePhase::Approach { remaining_ticks: remaining };
                if obs.closing_in || remaining == 0 {
                    if obs.in_range {
                        self.phase = TacklePhase::Commit { remaining_ticks: self.tackle_type.commit_ticks() };
                    } else {
                        self.phase = TacklePhase::Outcome(TackleOutcome::Miss);
                        self.outcome = Some(TackleOutcome::Miss);
                    }
                }
                None
            },
            TacklePhase::Commit { remaining_ticks } => {
                let remaining = remaining_ticks.saturating_sub(1);
                self.phase = TacklePhase::Commit { remaining_ticks: remaining };
                if remaining == 0 {
                    self.phase = TacklePhase::CollisionCheck;
                }
                None
            },
            TacklePhase::CollisionCheck => {
                let outcome = obs.collision.unwrap();
                self.outcome = Some(outcome);
                self.phase = TacklePhase::Outcome(outcome);
                None
            },
            TacklePhase::Outcome(outcome) => {
                let recovery_ticks = match outcome {
                    TackleOutcome::CleanWin => TACKLE_RECOVERY_CLEAN_TICKS,
                    TackleOutcome::Deflection => TACKLE_RECOVERY_DEFLECT_TICKS,
                    TackleOutcome::Miss => TACKLE_RECOVERY_MISS_TICKS,
                    TackleOutcome::Foul | TackleOutcome::YellowCard | TackleOutcome::RedCard => {
                        TACKLE_RECOVERY_FOUL_TICKS
                    },
                };
                self.phase = TacklePhase::Recovery { remaining_ticks: recovery_ticks };
                Some(outcome)
            },
            TacklePhase::Recovery { remaining_ticks } => {
                let remaining = remaining_ticks.saturating_sub(1);
                self.phase = TacklePhase::Recovery { remaining_ticks: remaining };
                if remaining == 0 {
                    self.phase = TacklePhase::Cooldown { remaining_ticks: TACKLE_COOLDOWN_TICKS };
                }
                None
            },
            TacklePhase::Cooldown { remaining_ticks } => {
                let remaining = remaining_ticks.saturating_sub(1);
                self.phase = TacklePhase::Cooldown { remaining_ticks: remaining };
                if remaining == 0 {
                    self.phase = TacklePhase::Finished;
                }
                None
            },
            TacklePhase::Finished => None,
        }
    }

    /// Whether the tackle is over.
    pub fn is_finished(&self) -> (r: bool)
        ensures
            r == (self.phase == TacklePhase::Finished),
    {
        match self.phase {
            TacklePhase::Finished => true,
            _ => false,
        }
    }

    /// Takes the viewer event waiting to be collected, leaving none.
    pub fn take_viewer_event(&mut self) -> (r: Option<TackleEvent>)
        ensures
            r == old(self).pending_viewer_event,
            *final(self) == (TackleAction { pending_viewer_event: None, ..*old(self) }),
    {
        let r = self.pending_viewer_event;
        self.pending_viewer_event = None;
        r
    }

    /// Whether the tackler may move: while approaching, cooling down, or after the end.
    pub fn can_tackler_move(&self) -> (r: bool)
        ensures
            r == (self.phase is Approach || self.phase is Cooldown || self.phase is Finished),
    {
        match self.phase {
            TacklePhase::Approach { .. } | TacklePhase::Cooldown { .. } | TacklePhase::Finished => true,
            _ => false,
        }
    }

    /// Cooldown ticks left: the countdown while cooling down, 0 once over,
    /// the full 24 before the cooldown has started.
    pub fn remaining_cooldown(&self) -> (r: u8)
        ensures
            r == cooldown_left(self.phase),
    {
        match self.phase {
            TacklePhase::Cooldown { remaining_ticks } => remaining_ticks,
            TacklePhase::Finished => 0,
            _ => TACKLE_COOLDOWN_TICKS,
        }
    }

    /// The viewer event of the contact at `now_tick` (250 ms per tick).
    pub fn emit_collision_event(
        &self,
        now_tick: u64,
        outcome: TackleOutcome,
        tackler_track_id: u32,
        target_track_id: u32,
        ball_owner_before: Option<u32>,
        ball_owner_after: Option<u32>,
        contact_pos: Option<Coord10>,
        ball_pos: Option<(i32, i32, i32)>,
    ) -> (r: TackleEvent)
        requires
            now_tick * 250 <= u64::MAX,
        ensures
            r.t_ms == now_tick * 250,
            r.kind@ == "tackle"@,
            r.actor_track_id == tackler_track_id,
            r.target_track_id == target_track_id,
            r.action == action_kind_of(self.tackle_type),
            r.outcome == viewer_outcome_of(outcome),
            r.lock_ms == lock_ms_of(self.tackle_type, viewer_outcome_of(outcome)),
            r.ball_owner_before == ball_owner_before,
            r.ball_owner_after == ball_owner_after,
            r.contact_pos == contact_pos,
            r.ball_pos == ball_pos,
    {
        let t_ms = now_tick * 250;
        let action = TackleActionKind::from_tackle_type(self.tackle_type);
        let viewer_outcome = ViewerTackleOutcome::from_tackle_outcome(outcome);
        let lock_ms = self.calculate_lock_ms(viewer_outcome);
        TackleEvent {
            t_ms,
            kind: "tackle",
            actor_track_id: tackler_track_id,
            target_track_id,
            action,
            lock_ms,
            outcome: viewer_outcome,
            ball_owner_before,
            ball_owner_after,
            contact_pos,
            ball_pos,
        }
    }

    /// The viewer's animation lock for this tackle and an outcome (500 to 1400 ms).
    pub fn calculate_lock_ms(&self, viewer_outcome: ViewerTackleOutcome) -> (r: u32)
        ensures
            r == lock_ms_of(self.tackle_type, viewer_outcome),
    {
        TackleEvent::calculate_lock_ms(self.tackle_type, viewer_outcome)
    }
}

/// Every tick keeps a tackle well formed: the phase, the recorded outcome and
/// the countdowns stay consistent.
pub proof fn lemma_tick_preserves_wf(a: TackleAction, t: TackleType, obs: TackleTick)
    requires
        a.wf(),
        a.tackle_type == t,
        a.phase == TacklePhase::CollisionCheck ==> obs.collision.is_some(),
    ensures
        (TackleAction {
            phase: next_phase(a.phase, t, obs),
            outcome: next_outcome(a.phase, a.outcome, t, obs),
            ..a
        }).wf(),
{
}

/// A running tackle comes strictly closer to its end on every tick, and no
/// tackle of type `t` lasts more than 62 ticks plus the commit ticks of `t`:
/// the bound falls by at least one per tick and starts at most there.
pub proof fn lemma_tick_progress(a: TackleAction, obs: TackleTick)
    requires
        a.wf(),
        a.phase == TacklePhase::CollisionCheck ==> obs.collision.is_some(),
    ensures
        ticks_bound(a.phase, a.tackle_type) <= 62 + commit_ticks_of(a.tackle_type),
        a.phase != TacklePhase::Finished ==> ticks_bound(next_phase(a.phase, a.tackle_type, obs), a.tackle_type)
            < ticks_bound(a.phase, a.tackle_type),
{
}

proof fn lemma_finished_stays(t: TackleType, obs: Seq<TackleTick>)
    ensures
        phase_after(TacklePhase::Finished, t, obs) == TacklePhase::Finished,
    decreases obs.len(),
{
    if obs.len() > 0 {
        lemma_finished_stays(t, obs.drop_first());
    }
}

/// A tackle whose countdowns are in range, fed at least as many ticks as its
/// bound, is finished by then, whatever the observations, as long as the
/// collision tick carries its result.
pub proof fn lemma_tackle_finishes(p: TacklePhase, t: TackleType, obs: Seq<TackleTick>)
    requires
        phase_in_range(p),
        collisions_judged(p, t, obs),
        obs.len() >= ticks_bound(p, t),
    ensures
        phase_after(p, t, obs) == TacklePhase::Finished,
    decreases obs.len(),
{
    if p == TacklePhase::Finished {
        lemma_finished_stays(t, obs);
    } else {
        lemma_tackle_finishes(next_phase(p, t, obs[0]), t, obs.drop_first());
    }
}

/// A tackle as `new` or `new_with_attrs` makes it is finished after at most
/// 62 ticks plus the commit ticks of its type (20 of approach at most, the
/// commit, the collision, the outcome, 16 of recovery at most and 24 of
/// cooldown), whatever the observations, as long as the collision tick
/// carries its result.
pub proof fn lemma_new_tackle_finishes(
    id: u64,
    tackler_idx: usize,
    tackler_team: u32,
    target_idx: usize,
    tackle_type: TackleType,
    distance: u32,
    start_tick: u64,
    obs: Seq<TackleTick>,
)
    requires
        collisions_judged(
            TackleAction::new_spec(id, tackler_idx, tackler_team, target_idx, tackle_type, distance, start_tick).phase,
            tackle_type,
            obs,
        ),
        obs.len() >= 62 + commit_ticks_of(tackle_type),
    ensures
        phase_after(
            TackleAction::new_spec(id, tackler_idx, tackler_team, target_idx, tackle_type, distance, start_tick).phase,
            tackle_type,
            obs,
        ) == TacklePhase::Finished,
{
    let p = TackleAction::new_spec(id, tackler_idx, tackler_team, target_idx, tackle_type, distance, start_tick).phase;
    lemma_tackle_finishes(p, tackle_type, obs);
}

/// The cooldown left never grows from one tick to the next.
pub proof fn lemma_cooldown_never_grows(p: TacklePhase, t: TackleType, obs: TackleTick)
    ensures
        cooldown_left(next_phase(p, t, obs)) <= cooldown_left(p),
{
}

/// A finished tackle stays finished, records no new outcome and hands out nothing.
pub proof fn lemma_finished_is_final(a: TackleAction, obs: TackleTick)
    requires
        a.phase == TacklePhase::Finished,
    ensures
        next_phase(a.phase, a.tackle_type, obs) == TacklePhase::Finished,
        next_outcome(a.phase, a.outcome, a.tackle_type, obs) == a.outcome,
        tick_result(a.phase).is_none(),
{
}

/// The outcome a tick hands out is the outcome the tackle recorded.
pub proof fn lemma_result_is_recorded(a: TackleAction)
    requires
        a.wf(),
    ensures
        tick_result(a.phase) matches Some(o) ==> a.outcome == Some(o),
{
}

/// Whether a tackle may be tried, given whether the player may start an
/// action, the player's tackle cooldown, whether the ball is beyond 5 m, and
/// the approach ticks over the distance.
#[derive(Debug, Clone, Copy, PartialEq, Eq, Structural)]
pub enum TackleAttemptResult {
    CanAttempt { approach_ticks: u8 },
    NotReady,
    OnCooldown,
    TooFar,
    PathBlocked,
    BadAngle,
}

impl TackleAttemptResult {
    pub fn is_can_attempt(&self) -> (r: bool)
        ensures
            r == (*self is CanAttempt),
    {
        match self {
            TackleAttemptResult::CanAttempt { .. } => true,
            _ => false,
        }
    }
}

/// Whether a tackle may be tried: not while the player is busy, not during the
/// cooldown, not with the ball beyond 5 m; otherwise with the approach ticks
/// over the distance.
pub fn tackle_attempt(can_start_action: bool, cooldown: u8, too_far: bool, approach_ticks: u8) -> (r:
    TackleAttemptResult)
    ensures
        r == if !can_start_action {
            TackleAttemptResult::NotReady
        } else if cooldown > 0 {
            TackleAttemptResult::OnCooldown
        } else if too_far {
            TackleAttemptResult::TooFar
        } else {
            TackleAttemptResult::CanAttempt { approach_ticks }
        },
{
    if !can_start_action {
        return TackleAttemptResult::NotReady;
    }
    if cooldown > 0 {
        return TackleAttemptResult::OnCooldown;
    }
    if too_far {
        return TackleAttemptResult::TooFar;
    }
    TackleAttemptResult::CanAttempt { approach_ticks }
}

} // verus!
