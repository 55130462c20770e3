use of_core::phase_action::action_types::{PassType, ShotType};
use of_core::phase_action::pass::{pass_step, PassEvent, PassPhase};
use of_core::phase_action::shot::{
    choose_shot_technique, shot_step, SaveType, ShooterSkills, ShotIntent, ShotPhase, ShotResult, ShotTechnique,
    ShotTick,
};

fn quiet(tick: u64) -> ShotTick {
    ShotTick {
        current_tick: tick,
        blocker: None,
        flight_ticks: 2,
        flight_distance_dm: 250,
        flying_blocker: None,
        on_target: true,
        save: None,
    }
}

#[test]
fn test_pass_windup_to_kick() {
    // a ground pass winds up for one tick
    let phase = PassPhase::Windup { remaining_ticks: PassType::Ground.windup_ticks() };
    let step = pass_step(phase, 0, 3, 0);
    assert_eq!(step.next, PassPhase::Kick);
    assert!(step.kicked);
}

#[test]
fn test_pass_kick_starts_flight() {
    let step = pass_step(PassPhase::Kick, 0, 3, 0);
    assert!(matches!(step.event, PassEvent::Started { .. }));
    assert!(matches!(step.next, PassPhase::InFlight { .. }));
}

#[test]
fn test_pass_arrival_trap_success() {
    // the receiver 0.5 m from the ball
    let step = pass_step(PassPhase::Arrival, 10, 0, 50);
    assert_eq!(step.event, PassEvent::TrapSuccess);
    assert_eq!(step.next, PassPhase::Finished);
}

#[test]
fn test_pass_arrival_missed() {
    // the receiver 10 m from the ball
    let step = pass_step(PassPhase::Arrival, 10, 0, 1000);
    assert_eq!(step.event, PassEvent::Missed);
}

#[test]
fn test_windup_to_strike() {
    let mut phase = ShotPhase::Windup { remaining_ticks: ShotType::Normal.windup_ticks() };
    let mut kept = ShotResult::InProgress;
    for _ in 0..3 {
        let step = shot_step(phase, kept, &quiet(0));
        phase = step.next;
        kept = step.kept;
    }
    assert_eq!(phase, ShotPhase::Strike);
}

#[test]
fn test_strike_to_inflight() {
    let mut phase = ShotPhase::Windup { remaining_ticks: 3 };
    let mut kept = ShotResult::InProgress;
    for _ in 0..3 {
        let step = shot_step(phase, kept, &quiet(0));
        phase = step.next;
        kept = step.kept;
    }
    let step = shot_step(phase, kept, &quiet(3));
    assert!(matches!(step.next, ShotPhase::InFlight { .. }));
}

#[test]
fn test_block_during_windup() {
    let t = ShotTick { blocker: Some(12), ..quiet(0) };
    let step = shot_step(ShotPhase::Windup { remaining_ticks: 3 }, ShotResult::InProgress, &t);
    assert!(matches!(step.reported, ShotResult::Blocked { .. }));
    assert_eq!(step.next, ShotPhase::Finished);
}

#[test]
fn test_goal_check_miss() {
    let t = ShotTick { on_target: false, ..quiet(10) };
    let step = shot_step(ShotPhase::GoalCheck, ShotResult::InProgress, &t);
    assert_eq!(step.reported, ShotResult::Missed);
}

#[test]
fn test_goal_check_save() {
    let t = ShotTick { save: Some(SaveType::Catch), ..quiet(10) };
    let step = shot_step(ShotPhase::GoalCheck, ShotResult::InProgress, &t);
    assert!(matches!(step.reported, ShotResult::Saved { .. }));
}

#[test]
fn test_goal_check_goal() {
    let step = shot_step(ShotPhase::GoalCheck, ShotResult::InProgress, &quiet(10));
    assert_eq!(step.reported, ShotResult::Goal);
}

// ---------------------------------------------------------------------------
// Further cases
// ---------------------------------------------------------------------------

#[test]
fn pass_full_sequence() {
    let mut phase = PassPhase::Windup { remaining_ticks: PassType::Cross.windup_ticks() };
    let mut kicks = 0;
    let mut tick = 0u64;
    let mut started_at = None;
    let mut last = PassEvent::Continue;
    while phase != PassPhase::Finished && tick < 50 {
        let step = pass_step(phase, tick, 4, 200);
        if step.kicked {
            kicks += 1;
        }
        if let PassEvent::Started { arrival_tick } = step.event {
            started_at = Some((tick, arrival_tick));
        }
        last = step.event;
        phase = step.next;
        tick += 1;
    }
    assert_eq!(kicks, 1);
    let (kick_tick, arrival) = started_at.unwrap();
    assert_eq!(arrival, kick_tick + 4);
    // 2 m from the ball: a failed trap
    assert_eq!(last, PassEvent::TrapFailed);
    // a zero-length flight still takes one tick
    assert_eq!(pass_step(PassPhase::Kick, 7, 0, 0).event, PassEvent::Started { arrival_tick: 8 });
    assert_eq!(pass_step(PassPhase::InFlight { arrival_tick: 8 }, 7, 0, 0).next, PassPhase::InFlight { arrival_tick: 8 });
    assert_eq!(pass_step(PassPhase::Finished, 9, 0, 0).event, PassEvent::Continue);
}

#[test]
fn shot_block_in_flight_and_finished_repeats() {
    let phase = ShotPhase::InFlight { arrival_tick: 10, flight_distance_dm: 200 };
    let step = shot_step(phase, ShotResult::InProgress, &ShotTick { flying_blocker: Some(3), ..quiet(5) });
    assert_eq!(step.kept, ShotResult::Blocked { blocker_idx: 3 });
    let again = shot_step(step.next, step.kept, &quiet(6));
    assert_eq!(again.reported, ShotResult::Blocked { blocker_idx: 3 });
    assert_eq!(shot_step(phase, ShotResult::InProgress, &quiet(9)).next, phase);
    assert_eq!(shot_step(phase, ShotResult::InProgress, &quiet(10)).next, ShotPhase::GoalCheck);
    let strike = shot_step(ShotPhase::Strike, ShotResult::InProgress, &ShotTick { flight_ticks: 0, ..quiet(20) });
    assert_eq!(strike.next, ShotPhase::InFlight { arrival_tick: 21, flight_distance_dm: 250 });
}

#[test]
fn shot_remaining_ticks_per_phase() {
    assert_eq!(ShotPhase::Windup { remaining_ticks: 3 }.remaining_ticks(100), 3);
    assert_eq!(ShotPhase::Strike.remaining_ticks(100), 1);
    assert_eq!(ShotPhase::InFlight { arrival_tick: 105, flight_distance_dm: 200 }.remaining_ticks(100), 5);
    assert_eq!(ShotPhase::InFlight { arrival_tick: 105, flight_distance_dm: 200 }.remaining_ticks(110), 0);
    assert_eq!(ShotPhase::GoalCheck.remaining_ticks(100), 1);
    assert_eq!(ShotPhase::Finished.remaining_ticks(100), 0);
}

#[test]
fn shot_technique_by_intent_and_ball_height() {
    let skills = ShooterSkills { finishing: 70, long_shots: 60, volleys: 65, composure: 70 };
    assert_eq!(choose_shot_technique(ShotIntent::Place, 0, &skills), ShotTechnique::Normal);
    assert_eq!(choose_shot_technique(ShotIntent::Power, 0, &skills), ShotTechnique::Power);
    assert_eq!(choose_shot_technique(ShotIntent::Quick, 0, &skills), ShotTechnique::OneTouch);
    assert_eq!(choose_shot_technique(ShotIntent::Chip, 0, &skills), ShotTechnique::Chip);
    // a ball above 1.5 m is headed, at or below it volleyed
    assert_eq!(choose_shot_technique(ShotIntent::Aerial, 180, &skills), ShotTechnique::Header);
    assert_eq!(choose_shot_technique(ShotIntent::Aerial, 150, &skills), ShotTechnique::Volley);
}
