use of_core::phase_action::action_types::{
    ActionPhase, PassType, PhaseActionType, ShotType, TackleActionKind, TackleEvent, TackleOutcome,
    TackleType, ViewerTackleOutcome,
};
use of_core::phase_action::ball_physics::{check_boundary, HeightCurve, RestartType};
use of_core::phase_action::dribble::{DeceptionType, DribbleIntent, DribbleTechnique};
use of_core::phase_action::duration::{
    get_phase_duration, tackle_approach_ticks, DRIBBLE_CARRY_TICKS, DRIBBLE_TOUCH_INTERVAL,
    DRIBBLE_TOUCH_TICKS, TACKLE_APPROACH_MAX_TICKS,
};
use of_core::phase_action::pass::{can_start_pass, PassPhase};
use of_core::phase_action::shot::{ShotHeightProfile, ShotTechnique};
use of_core::phase_action::tackle::{
    tackle_attempt, TackleAction, TackleAttemptResult, TacklePhase, TackleTick,
};
use of_core::geometry::Coord10;

#[test]
fn test_pass_type_height_curve() {
    assert_eq!(HeightCurve::from_pass_type(PassType::Ground), HeightCurve::Ground);
    assert_eq!(HeightCurve::from_pass_type(PassType::Cross), HeightCurve::HighArc);
    assert_eq!(HeightCurve::from_pass_type(PassType::Lofted), HeightCurve::MediumArc);
}

#[test]
fn test_shot_type_height_curve() {
    assert_eq!(HeightCurve::from_shot_type(ShotType::Power), HeightCurve::Line);
    assert_eq!(HeightCurve::from_shot_type(ShotType::Chip), HeightCurve::HighArc);
    assert_eq!(HeightCurve::from_shot_type(ShotType::Normal), HeightCurve::LowArc);
}

#[test]
fn test_intent_available_techniques() {
    let protect_techs = DribbleIntent::Protect.available_techniques();
    assert!(protect_techs.contains(&DribbleTechnique::Shielding));
    assert!(protect_techs.contains(&DribbleTechnique::Turn));

    let progress_techs = DribbleIntent::Progress.available_techniques();
    assert!(progress_techs.contains(&DribbleTechnique::FaceUp));
    assert!(progress_techs.contains(&DribbleTechnique::KnockOn));

    let beat_techs = DribbleIntent::Beat.available_techniques();
    assert!(beat_techs.contains(&DribbleTechnique::Feint));
    assert!(beat_techs.contains(&DribbleTechnique::KnockOn));
    assert!(beat_techs.contains(&DribbleTechnique::Hesitation));
    assert!(beat_techs.contains(&DribbleTechnique::Turn));
}

#[test]
fn test_deception_types() {
    assert_eq!(DribbleTechnique::Feint.deception_type(), Some(DeceptionType::Direction));
    assert_eq!(DribbleTechnique::Hesitation.deception_type(), Some(DeceptionType::Tempo));
    assert_eq!(DribbleTechnique::KnockOn.deception_type(), Some(DeceptionType::Speed));
    assert_eq!(DribbleTechnique::Shielding.deception_type(), None);
}

#[test]
fn test_dribble_cycle() {
    assert_eq!(DRIBBLE_TOUCH_TICKS + DRIBBLE_CARRY_TICKS, DRIBBLE_TOUCH_INTERVAL);
}

#[test]
fn test_phase_names() {
    assert_eq!(PassPhase::Windup { remaining_ticks: 2 }.name(), "Windup");
    assert_eq!(PassPhase::Kick.name(), "Kick");
    assert_eq!(PassPhase::InFlight { arrival_tick: 10 }.name(), "InFlight");
    assert_eq!(PassPhase::Arrival.name(), "Arrival");
    assert_eq!(PassPhase::Finished.name(), "Finished");
}

#[test]
fn test_can_start_pass() {
    assert!(can_start_pass(true, true));
    assert!(!can_start_pass(false, true));
    assert!(!can_start_pass(true, false));
}

#[test]
fn test_shot_type_windup_ticks() {
    assert_eq!(ShotType::Normal.windup_ticks(), 3);
    assert_eq!(ShotType::Header.windup_ticks(), 1);
    assert_eq!(ShotType::Power.windup_ticks(), 4);
    assert_eq!(ShotType::OneTouch.windup_ticks(), 1);
}

#[test]
fn test_height_profile_conversion() {
    assert_eq!(ShotHeightProfile::Flat.to_height_curve(), HeightCurve::Line);
    assert_eq!(ShotHeightProfile::Arc.to_height_curve(), HeightCurve::MediumArc);
    assert_eq!(ShotHeightProfile::Lob.to_height_curve(), HeightCurve::HighArc);
}

#[test]
fn test_shot_technique_to_shot_type() {
    assert_eq!(ShotTechnique::Normal.to_shot_type(), ShotType::Normal);
    assert_eq!(ShotTechnique::Power.to_shot_type(), ShotType::Power);
    assert_eq!(ShotTechnique::OneTouch.to_shot_type(), ShotType::OneTouch);
    assert_eq!(ShotTechnique::Volley.to_shot_type(), ShotType::Volley);
    assert_eq!(ShotTechnique::Header.to_shot_type(), ShotType::Header);
    assert_eq!(ShotTechnique::Chip.to_shot_type(), ShotType::Chip);
}

#[test]
fn test_tackle_action_creation() {
    // 3 m between tackler and target
    let action = TackleAction::new(1, 5, 0, 10, TackleType::Standing, 30, 100);
    assert_eq!(action.id, 1);
    assert_eq!(action.tackler_idx, 5);
    assert_eq!(action.target_idx, 10);
    assert!(matches!(action.phase, TacklePhase::Approach { .. }));
}

/// What the caller measures on each tick when the target stands `gap_dm`
/// (0.1 m) away and the tackler does not close in further.
fn obs_at(gap_dm: u32, collision: Option<TackleOutcome>) -> TackleTick {
    TackleTick { closing_in: gap_dm <= 15, in_range: gap_dm <= 50, collision }
}

#[test]
fn test_tackle_phase_progression() {
    let mut action = TackleAction::new(1, 5, 0, 10, TackleType::Standing, 10, 100);
    for _ in 0..10 {
        if matches!(action.phase, TacklePhase::Commit { .. }) {
            break;
        }
        action.update_tick(obs_at(10, None));
    }
    assert!(
        matches!(action.phase, TacklePhase::Commit { .. })
            || matches!(action.phase, TacklePhase::CollisionCheck)
    );
    for _ in 0..10 {
        if matches!(action.phase, TacklePhase::Outcome(_)) {
            break;
        }
        action.update_tick(obs_at(10, Some(TackleOutcome::CleanWin)));
    }
    assert!(
        matches!(action.phase, TacklePhase::Outcome(_))
            || matches!(action.phase, TacklePhase::Recovery { .. })
    );
}

#[test]
fn test_tackle_outcome_recorded() {
    let mut action = TackleAction::new(1, 5, 0, 10, TackleType::Standing, 5, 100);
    for _ in 0..50 {
        if action.outcome.is_some() {
            break;
        }
        action.update_tick(obs_at(5, Some(TackleOutcome::Deflection)));
    }
    assert!(action.outcome.is_some());
}

#[test]
fn test_tackle_too_far_miss() {
    let mut action = TackleAction::new(1, 5, 0, 10, TackleType::Standing, 100, 100);
    for _ in 0..30 {
        action.update_tick(obs_at(100, None));
    }
    assert!(action.outcome.is_some() || matches!(action.phase, TacklePhase::Approach { .. }));
    assert_eq!(action.outcome, Some(TackleOutcome::Miss));
}

#[test]
fn test_full_tackle_lifecycle() {
    let mut action = TackleAction::new(1, 5, 0, 10, TackleType::Standing, 15, 100);
    let mut phases_seen: Vec<String> = Vec::new();
    let mut last_phase_name = "";
    for _ in 0..100 {
        if action.is_finished() {
            break;
        }
        let current_phase = action.phase.name();
        if current_phase != last_phase_name {
            phases_seen.push(current_phase.to_string());
            last_phase_name = current_phase;
        }
        action.update_tick(obs_at(15, Some(TackleOutcome::CleanWin)));
    }
    assert!(action.is_finished());
    assert!(phases_seen.contains(&"Approach".to_string()));
    assert!(phases_seen.contains(&"Cooldown".to_string()));
}

#[test]
fn longest_tackle_lasts_62_ticks_plus_the_commit() {
    // 20 ticks of approach, the commit, collision, outcome, 16 of recovery
    // (a foul) and 24 of cooldown
    for (t, commit) in [(TackleType::Standing, 2), (TackleType::Sliding, 4), (TackleType::Shoulder, 1)] {
        let mut action = TackleAction::new(1, 5, 0, 10, t, 500, 0);
        let far_obs = TackleTick { closing_in: false, in_range: true, collision: Some(TackleOutcome::Foul) };
        let mut ticks = 0;
        while !action.is_finished() {
            action.update_tick(far_obs);
            ticks += 1;
        }
        assert_eq!(ticks, 62 + commit);
        assert_eq!(action.remaining_cooldown(), 0);
    }
}

#[test]
fn test_can_attempt_tackle() {
    // 3 m away: within reach, 3 approach ticks
    let result = tackle_attempt(true, 0, false, tackle_approach_ticks(30));
    assert!(result.is_can_attempt());
    let result_cd = tackle_attempt(true, 10, false, tackle_approach_ticks(30));
    assert_eq!(result_cd, TackleAttemptResult::OnCooldown);
    // 10 m away: beyond 5 m
    let result_far = tackle_attempt(true, 0, true, tackle_approach_ticks(100));
    assert_eq!(result_far, TackleAttemptResult::TooFar);
}

#[test]
fn test_emit_collision_event_standing_clean() {
    let action = TackleAction::new(1, 5, 0, 10, TackleType::Standing, 10, 100);
    let event = action.emit_collision_event(
        100,
        TackleOutcome::CleanWin,
        5,
        10,
        Some(10),
        Some(5),
        Some(Coord10 { x: 505, y: 340 }),
        Some((505, 340, 1)),
    );
    assert_eq!(event.t_ms, 25000);
    assert_eq!(event.kind, "tackle");
    assert_eq!(event.actor_track_id, 5);
    assert_eq!(event.target_track_id, 10);
    assert_eq!(event.action, TackleActionKind::TackleStand);
    assert_eq!(event.outcome, ViewerTackleOutcome::Clean);
    assert_eq!(event.ball_owner_before, Some(10));
    assert_eq!(event.ball_owner_after, Some(5));
}

#[test]
fn test_emit_collision_event_sliding_foul() {
    let action = TackleAction::new(2, 8, 1, 3, TackleType::Sliding, 20, 200);
    let event = action.emit_collision_event(
        200,
        TackleOutcome::Foul,
        8,
        3,
        Some(3),
        Some(3),
        Some(Coord10 { x: 600, y: 400 }),
        Some((600, 400, 0)),
    );
    assert_eq!(event.action, TackleActionKind::TackleSlide);
    assert_eq!(event.outcome, ViewerTackleOutcome::Foul);
}

#[test]
fn test_emit_collision_event_shoulder_deflect() {
    let action = TackleAction::new(3, 6, 0, 9, TackleType::Shoulder, 8, 150);
    let event = action.emit_collision_event(
        150,
        TackleOutcome::Deflection,
        6,
        9,
        Some(9),
        None,
        Some(Coord10 { x: 550, y: 300 }),
        Some((555, 300, 2)),
    );
    assert_eq!(event.action, TackleActionKind::TackleShoulder);
    assert_eq!(event.outcome, ViewerTackleOutcome::Deflect);
    assert_eq!(event.ball_owner_after, None);
}

#[test]
fn test_calculate_lock_ms_standing() {
    let action = TackleAction::new(1, 5, 0, 10, TackleType::Standing, 10, 100);
    let clean_lock = action.calculate_lock_ms(ViewerTackleOutcome::Clean);
    assert!((500..=1400).contains(&clean_lock));
    let miss_lock = action.calculate_lock_ms(ViewerTackleOutcome::Miss);
    assert!((500..=1400).contains(&miss_lock));
    let foul_lock = action.calculate_lock_ms(ViewerTackleOutcome::Foul);
    assert_eq!(foul_lock, 1400);
}

#[test]
fn test_calculate_lock_ms_sliding() {
    let action = TackleAction::new(1, 5, 0, 10, TackleType::Sliding, 10, 100);
    let clean_lock = action.calculate_lock_ms(ViewerTackleOutcome::Clean);
    assert_eq!(clean_lock, 1400);
}

#[test]
fn test_calculate_lock_ms_shoulder() {
    let action = TackleAction::new(1, 5, 0, 10, TackleType::Shoulder, 8, 100);
    let clean_lock = action.calculate_lock_ms(ViewerTackleOutcome::Clean);
    assert!((500..=1400).contains(&clean_lock));
    assert_eq!(clean_lock, 850);
}

#[test]
fn test_tackle_action_kind_mapping() {
    assert_eq!(TackleActionKind::from_tackle_type(TackleType::Standing), TackleActionKind::TackleStand);
    assert_eq!(TackleActionKind::from_tackle_type(TackleType::Sliding), TackleActionKind::TackleSlide);
    assert_eq!(TackleActionKind::from_tackle_type(TackleType::Shoulder), TackleActionKind::TackleShoulder);
}

#[test]
fn test_viewer_outcome_mapping() {
    assert_eq!(ViewerTackleOutcome::from_tackle_outcome(TackleOutcome::CleanWin), ViewerTackleOutcome::Clean);
    assert_eq!(ViewerTackleOutcome::from_tackle_outcome(TackleOutcome::Deflection), ViewerTackleOutcome::Deflect);
    assert_eq!(ViewerTackleOutcome::from_tackle_outcome(TackleOutcome::Miss), ViewerTackleOutcome::Miss);
    assert_eq!(ViewerTackleOutcome::from_tackle_outcome(TackleOutcome::Foul), ViewerTackleOutcome::Foul);
    assert_eq!(ViewerTackleOutcome::from_tackle_outcome(TackleOutcome::YellowCard), ViewerTackleOutcome::Yellow);
    assert_eq!(ViewerTackleOutcome::from_tackle_outcome(TackleOutcome::RedCard), ViewerTackleOutcome::Red);
}

// ---------------------------------------------------------------------------
// Further cases
// ---------------------------------------------------------------------------

#[test]
fn tackle_runs_through_every_phase_in_order() {
    let mut action = TackleAction::new(7, 2, 0, 14, TackleType::Sliding, 12, 0);
    // 1.2 m: approach of 2 ticks, closing in at once
    assert_eq!(action.phase, TacklePhase::Approach { remaining_ticks: 2 });
    assert!(action.can_tackler_move());
    action.update_tick(obs_at(12, None));
    assert_eq!(action.phase, TacklePhase::Commit { remaining_ticks: 4 });
    assert!(!action.can_tackler_move());
    for _ in 0..4 {
        action.update_tick(obs_at(12, None));
    }
    assert_eq!(action.phase, TacklePhase::CollisionCheck);
    assert_eq!(action.update_tick(obs_at(12, Some(TackleOutcome::YellowCard))), None);
    assert_eq!(action.phase, TacklePhase::Outcome(TackleOutcome::YellowCard));
    // the outcome is handed out on the next tick
    assert_eq!(action.update_tick(obs_at(12, None)), Some(TackleOutcome::YellowCard));
    assert_eq!(action.phase, TacklePhase::Recovery { remaining_ticks: 16 });
    for _ in 0..16 {
        action.update_tick(obs_at(12, None));
    }
    assert_eq!(action.phase, TacklePhase::Cooldown { remaining_ticks: 24 });
    assert_eq!(action.remaining_cooldown(), 24);
    for _ in 0..24 {
        action.update_tick(obs_at(12, None));
    }
    assert!(action.is_finished());
    assert_eq!(action.remaining_cooldown(), 0);
    // a finished tackle stays finished
    assert_eq!(action.update_tick(obs_at(0, None)), None);
    assert!(action.is_finished());
    assert_eq!(action.outcome, Some(TackleOutcome::YellowCard));
}

#[test]
fn tackle_out_of_range_is_a_miss() {
    // 8 m: in range of no tackle when the approach ends
    let mut action = TackleAction::new(1, 5, 0, 10, TackleType::Standing, 80, 0);
    assert_eq!(action.phase, TacklePhase::Approach { remaining_ticks: 8 });
    for _ in 0..8 {
        action.update_tick(obs_at(80, None));
    }
    assert_eq!(action.phase, TacklePhase::Outcome(TackleOutcome::Miss));
    assert_eq!(action.update_tick(obs_at(80, None)), Some(TackleOutcome::Miss));
    assert_eq!(action.phase, TacklePhase::Recovery { remaining_ticks: 12 });
}

#[test]
fn approach_ticks_round_up_and_clamp() {
    assert_eq!(tackle_approach_ticks(0), 1);
    assert_eq!(tackle_approach_ticks(5), 1);
    assert_eq!(tackle_approach_ticks(40), 4);
    assert_eq!(tackle_approach_ticks(41), 5);
    assert_eq!(tackle_approach_ticks(1000), TACKLE_APPROACH_MAX_TICKS);
    assert_eq!(tackle_attempt(false, 0, false, 3), TackleAttemptResult::NotReady);
    assert_eq!(tackle_attempt(true, 0, false, 3), TackleAttemptResult::CanAttempt { approach_ticks: 3 });
}

#[test]
fn lock_ms_values() {
    assert_eq!(TackleEvent::calculate_lock_ms(TackleType::Standing, ViewerTackleOutcome::Clean), 1100);
    assert_eq!(TackleEvent::calculate_lock_ms(TackleType::Standing, ViewerTackleOutcome::Miss), 1375);
    assert_eq!(TackleEvent::calculate_lock_ms(TackleType::Shoulder, ViewerTackleOutcome::Deflect), 1000);
}

#[test]
fn phase_durations() {
    assert_eq!(get_phase_duration(PhaseActionType::Tackle, ActionPhase::Cooldown), 24);
    assert_eq!(get_phase_duration(PhaseActionType::Tackle, ActionPhase::Approach), 20);
    assert_eq!(get_phase_duration(PhaseActionType::Pass, ActionPhase::Recover), 2);
    assert_eq!(get_phase_duration(PhaseActionType::Shot, ActionPhase::Cooldown), 8);
    assert_eq!(get_phase_duration(PhaseActionType::Dribble, ActionPhase::Approach), 2);
    assert_eq!(get_phase_duration(PhaseActionType::Move, ActionPhase::Commit), 0);
}

#[test]
fn take_viewer_event_empties_the_slot() {
    let mut action = TackleAction::new(1, 5, 0, 10, TackleType::Standing, 10, 4);
    let ev = action.emit_collision_event(4, TackleOutcome::Miss, 5, 10, None, None, None, None);
    assert_eq!(ev.lock_ms, 1375);
    action.pending_viewer_event = Some(ev);
    assert!(action.take_viewer_event().is_some());
    assert!(action.take_viewer_event().is_none());
}

/// The pitch, 105 m by 68 m, in tenths of a metre.
const LENGTH: i32 = 1050;
const WIDTH: i32 = 680;

#[test]
fn test_boundary_check_throw_in() {
    let restart = check_boundary(Coord10 { x: 500, y: -10 }, LENGTH, WIDTH, None);
    assert!(matches!(restart, Some(RestartType::ThrowIn)));
}

#[test]
fn test_boundary_check_corner() {
    // over the home goal line, outside the posts, last touched by the away team
    let restart = check_boundary(Coord10 { x: -10, y: 100 }, LENGTH, WIDTH, Some(1));
    assert!(matches!(restart, Some(RestartType::Corner)));
}

#[test]
fn test_boundary_check_goal_kick() {
    let restart = check_boundary(Coord10 { x: -10, y: 100 }, LENGTH, WIDTH, Some(0));
    assert!(matches!(restart, Some(RestartType::GoalKick)));
}

#[test]
fn boundary_between_posts_and_far_line() {
    // between the posts (30.34 m to 37.66 m) no restart is given here
    assert_eq!(check_boundary(Coord10 { x: -10, y: 304 }, LENGTH, WIDTH, Some(1)), None);
    assert_eq!(check_boundary(Coord10 { x: -10, y: 303 }, LENGTH, WIDTH, Some(1)), Some(RestartType::Corner));
    // the far goal line: a corner when the home team touched it last
    assert_eq!(check_boundary(Coord10 { x: 1060, y: 100 }, LENGTH, WIDTH, Some(0)), Some(RestartType::Corner));
    assert_eq!(check_boundary(Coord10 { x: 1060, y: 100 }, LENGTH, WIDTH, None), Some(RestartType::GoalKick));
    // in play
    assert_eq!(check_boundary(Coord10 { x: 525, y: 340 }, LENGTH, WIDTH, None), None);
}
