use of_core::geometry::Coord10;
use of_core::attributes::PlayerAttributes;
use of_core::phase_action::dribble::{
    choose_dribble_technique, judge_technique, DribbleIntent, DribbleTechnique, TechniqueOutcome, TechniqueSelection,
};
use of_core::phase_action::dribble_phase::{
    can_start_dribble, next_dribble_step, phase_age, should_evade, should_execute_technique,
    should_knockon, with_technique_result, DribbleEvent, DribbleObs, DribblePhase, DribbleResult,
    DribbleTouchType, TakeOnOutcome,
};

fn m(x: f64, y: f64) -> Coord10 {
    Coord10 { x: (x * 10.0).round() as i32, y: (y * 10.0).round() as i32 }
}

const CY: f64 = 34.0;

/// Measurements with the given separation (cm), a defender 5 m away, some
/// space ahead and a progressing dribbler.
fn obs(sep_cm: u32) -> DribbleObs {
    DribbleObs {
        sep_cm,
        defender_dist_cm: 500,
        space_ahead_pm: 500,
        intercept_risk_pm: 200,
        intent: DribbleIntent::Progress,
        can_evade: false,
        speed_ratio_pm: 800,
        nearest_defender_idx: None,
    }
}

#[test]
fn test_dribble_phase_names() {
    assert_eq!(DribblePhase::Touch.name(), "Touch");
    assert_eq!(DribblePhase::Carry.name(), "Carry");
    assert_eq!(DribblePhase::SyncBall.name(), "SyncBall");
    assert_eq!(DribblePhase::Finished.name(), "Finished");
}

#[test]
fn test_can_start_dribble() {
    assert!(can_start_dribble(m(50.0, CY), m(50.5, CY), true));
    assert!(!can_start_dribble(m(50.0, CY), m(50.5, CY), false));
    assert!(!can_start_dribble(m(50.0, CY), m(60.0, CY), true));
}

#[test]
fn test_dribble_touch_to_carry() {
    let step = next_dribble_step(DribblePhase::Touch, 1, &obs(0), 0);
    assert_eq!(step.result, DribbleResult::Continue);
    assert_eq!(step.next, DribblePhase::Carry);
}

#[test]
fn test_dribble_carry_to_touch_via_condition() {
    let step = next_dribble_step(DribblePhase::Touch, 1, &obs(50), 50);
    assert_eq!(step.next, DribblePhase::Carry);
    // the ball reaches the feet: 30 cm is within 45 cm
    let step = next_dribble_step(step.next, 1, &obs(30), 30);
    assert_eq!(step.next, DribblePhase::SyncBall);
}

#[test]
fn test_dribble_lost_when_ball_far() {
    // the ball 10 m away
    let step = next_dribble_step(DribblePhase::Touch, 0, &obs(1000), 1000);
    let step = next_dribble_step(step.next, 1, &obs(1000), 1000);
    assert_eq!(step.result, DribbleResult::Lost);
    assert_eq!(step.next, DribblePhase::Finished);
}

#[test]
fn test_dribble_evade() {
    let calm = DribbleObs { defender_dist_cm: 1000, space_ahead_pm: 800, intercept_risk_pm: 100, ..obs(30) };
    let step = next_dribble_step(DribblePhase::Evade, 1, &calm, 30);
    assert!(step.next == DribblePhase::Carry || step.next == DribblePhase::Touch);
}

#[test]
fn test_dribble_gather_phase() {
    let step = next_dribble_step(DribblePhase::Gather, 1, &obs(30), 30);
    assert_eq!(step.next, DribblePhase::Touch);
}

#[test]
fn test_technique_execution_completes() {
    let phase = DribblePhase::ExecutingTechnique { technique: DribbleTechnique::Shielding, success: None };
    let phase = with_technique_result(phase, true);
    let step = next_dribble_step(phase, 1, &obs(0), 0);
    assert_eq!(step.next, DribblePhase::Touch);
}

#[test]
fn test_dribble_touch_event_emission() {
    let step = next_dribble_step(DribblePhase::Touch, 1, &obs(0), 0);
    assert_eq!(step.event, Some(DribbleEvent::Touch { touch_type: DribbleTouchType::Carry }));
}

#[test]
fn test_dribble_knockon_event() {
    let open = DribbleObs { defender_dist_cm: 1000, space_ahead_pm: 800, intercept_risk_pm: 100, speed_ratio_pm: 850, ..obs(0) };
    let step = next_dribble_step(DribblePhase::Touch, 1, &open, 0);
    assert_eq!(step.event, Some(DribbleEvent::Touch { touch_type: DribbleTouchType::KnockOn }));
    // 3 m plus 2 m times 0.8
    assert_eq!(step.next, DribblePhase::KnockAndRun { knock_distance_cm: 460 });
}

#[test]
fn test_dribble_first_touch_event() {
    let step = next_dribble_step(DribblePhase::Gather, 1, &obs(20), 20);
    assert_eq!(step.event, Some(DribbleEvent::Touch { touch_type: DribbleTouchType::FirstTouch }));
}

// ---------------------------------------------------------------------------
// Further cases
// ---------------------------------------------------------------------------

#[test]
fn carry_cascade_in_order() {
    // a beating dribbler pressed within 2 m evades
    let beat = DribbleObs { intent: DribbleIntent::Beat, defender_dist_cm: 150, can_evade: true, ..obs(100) };
    assert!(should_evade(&beat));
    assert_eq!(next_dribble_step(DribblePhase::Carry, 2, &beat, 100).next, DribblePhase::Evade);
    // a progressing dribbler pressed within 2 m touches at once
    let pressed = DribbleObs { defender_dist_cm: 150, ..obs(100) };
    assert_eq!(next_dribble_step(DribblePhase::Carry, 2, &pressed, 100).next, DribblePhase::Touch);
    // nothing happening: carry on, then touch at the cap of 7
    assert_eq!(next_dribble_step(DribblePhase::Carry, 6, &obs(100), 100).next, DribblePhase::Carry);
    assert_eq!(next_dribble_step(DribblePhase::Carry, 7, &obs(100), 100).next, DribblePhase::Touch);
    // beyond 3 m the ball is lost, whatever else holds
    assert_eq!(next_dribble_step(DribblePhase::Carry, 0, &beat, 301).result, DribbleResult::Lost);
}

#[test]
fn sync_ball_by_distance() {
    assert_eq!(next_dribble_step(DribblePhase::SyncBall, 0, &obs(0), 79).next, DribblePhase::Touch);
    assert_eq!(next_dribble_step(DribblePhase::SyncBall, 0, &obs(0), 80).next, DribblePhase::Carry);
    let step = next_dribble_step(DribblePhase::SyncBall, 0, &obs(0), 250);
    assert_eq!(step.result, DribbleResult::Lost);
}

#[test]
fn knock_and_run_exits() {
    let phase = DribblePhase::KnockAndRun { knock_distance_cm: 400 };
    let runway = DribbleObs { space_ahead_pm: 800, intercept_risk_pm: 100, ..obs(300) };
    assert_eq!(next_dribble_step(phase, 2, &runway, 300).next, phase);
    assert_eq!(next_dribble_step(phase, 2, &DribbleObs { sep_cm: 150, ..runway }, 150).next, DribblePhase::Touch);
    assert_eq!(next_dribble_step(phase, 2, &runway, 651).result, DribbleResult::Lost);
    assert_eq!(next_dribble_step(phase, 2, &DribbleObs { intercept_risk_pm: 600, ..runway }, 300).next, DribblePhase::Touch);
    assert_eq!(next_dribble_step(phase, 8, &runway, 300).next, DribblePhase::Touch);
}

#[test]
fn take_on_shown_when_beating_a_known_defender() {
    let beat = DribbleObs { intent: DribbleIntent::Beat, defender_dist_cm: 120, nearest_defender_idx: Some(14), ..obs(0) };
    let step = next_dribble_step(DribblePhase::Touch, 0, &beat, 0);
    assert_eq!(
        step.event,
        Some(DribbleEvent::TakeOn { touch_type: DribbleTouchType::Carry, outcome: TakeOnOutcome::InProgress })
    );
    let past = DribbleObs { defender_dist_cm: 150, ..beat };
    assert_eq!(
        next_dribble_step(DribblePhase::Touch, 0, &past, 0).event,
        Some(DribbleEvent::TakeOn { touch_type: DribbleTouchType::Carry, outcome: TakeOnOutcome::Success })
    );
}

#[test]
fn technique_failure_and_cap() {
    let feint = DribblePhase::ExecutingTechnique { technique: DribbleTechnique::Feint, success: None };
    assert_eq!(next_dribble_step(feint, 3, &obs(0), 0).next, feint);
    assert_eq!(next_dribble_step(feint, 4, &obs(0), 0).next, DribblePhase::Touch);
    let failed = with_technique_result(feint, false);
    assert_eq!(next_dribble_step(failed, 0, &obs(0), 0).result, DribbleResult::Lost);
    assert_eq!(feint.name(), "Feint");
    assert_eq!(feint.max_ticks(), 4);
    let done = next_dribble_step(DribblePhase::Finished, 0, &obs(0), 0);
    assert_eq!(done.result, DribbleResult::Completed);
    assert!(!DribblePhase::Finished.is_active());
}

#[test]
fn triggers_and_age() {
    let protect = DribbleObs { intent: DribbleIntent::Protect, defender_dist_cm: 140, ..obs(0) };
    assert!(should_execute_technique(&protect));
    assert!(!should_execute_technique(&DribbleObs { defender_dist_cm: 141, ..protect }));
    assert!(should_execute_technique(&DribbleObs { space_ahead_pm: 349, ..obs(0) }));
    assert!(!should_knockon(&obs(0)));
    assert_eq!(phase_age(105, 100), 5);
    assert_eq!(phase_age(100, 105), 0);
    assert_eq!(phase_age(400, 100), 44);
}

fn make_test_attacker() -> PlayerAttributes {
    PlayerAttributes {
        dribbling: 75,
        flair: 70,
        technique: 72,
        pace: 80,
        acceleration: 78,
        agility: 75,
        balance: 70,
        strength: 68,
        composure: 72,
        ..PlayerAttributes::default()
    }
}

fn make_test_defender() -> PlayerAttributes {
    PlayerAttributes {
        tackling: 75,
        anticipation: 70,
        concentration: 68,
        aggression: 72,
        strength: 75,
        pace: 72,
        acceleration: 70,
        ..PlayerAttributes::default()
    }
}

#[test]
fn test_choose_technique_protect() {
    let attacker = make_test_attacker();
    let defender = make_test_defender();
    let selection = choose_dribble_technique(DribbleIntent::Protect, &attacker, Some(&defender), false);
    assert!(matches!(selection.technique, DribbleTechnique::Shielding | DribbleTechnique::Turn));
    // chance in three-thousandths, strictly between 0 and 1
    assert!(selection.success_chance > 0 && selection.success_chance < 3000);
    // shielding 0.473 against a turn at 0.55
    assert_eq!(selection.technique, DribbleTechnique::Turn);
    assert_eq!(selection.success_chance, 1650);
}

#[test]
fn test_choose_technique_progress_no_space() {
    let attacker = make_test_attacker();
    let defender = make_test_defender();
    let selection = choose_dribble_technique(DribbleIntent::Progress, &attacker, Some(&defender), false);
    assert!(matches!(selection.technique, DribbleTechnique::FaceUp));
}

#[test]
fn test_choose_technique_beat() {
    let attacker = make_test_attacker();
    let defender = make_test_defender();
    let selection = choose_dribble_technique(DribbleIntent::Beat, &attacker, Some(&defender), true);
    assert!(matches!(
        selection.technique,
        DribbleTechnique::Feint | DribbleTechnique::KnockOn | DribbleTechnique::Hesitation | DribbleTechnique::Turn
    ));
    // knock-on 0.414, feint 0.492, hesitation 0.541, turn 0.525
    assert_eq!(selection.technique, DribbleTechnique::Hesitation);
    assert_eq!(selection.success_chance, 1624);
}

#[test]
fn knock_on_needs_space_and_speed() {
    let mut fast = make_test_attacker();
    fast.pace = 95;
    fast.acceleration = 95;
    let defender = make_test_defender();
    // speed advantage 48: 0.35 + 0.192 = 0.542 > 0.5
    let s = choose_dribble_technique(DribbleIntent::Progress, &fast, Some(&defender), true);
    assert_eq!(s.technique, DribbleTechnique::KnockOn);
    assert_eq!(s.success_chance, 1050 + 12 * 48);
    // no space: facing up at 0.85
    let s = choose_dribble_technique(DribbleIntent::Progress, &fast, Some(&defender), false);
    assert_eq!(s, TechniqueSelection { technique: DribbleTechnique::FaceUp, success_chance: 2550 });
}

#[test]
fn average_players_tie_to_shielding_and_later_beat_technique() {
    let avg = PlayerAttributes::default();
    // no defender given: an average one
    let s = choose_dribble_technique(DribbleIntent::Protect, &avg, None, false);
    // shielding 1500 (no advantage) ties the turn, 1200 + 6 x 50 = 1500: shielding is kept
    assert_eq!(s, TechniqueSelection { technique: DribbleTechnique::Shielding, success_chance: 1500 });
    let s = choose_dribble_technique(DribbleIntent::Beat, &avg, None, true);
    // knock-on 1050, feint 900 + 400, hesitation 1050 + 350 = 1400, turn 1050 + 350 = 1400:
    // hesitation and turn tie, the later (turn) wins
    assert_eq!(s, TechniqueSelection { technique: DribbleTechnique::Turn, success_chance: 1400 });
}

#[test]
fn safe_observation_keeps_carrying() {
    let o = DribbleObs::safe();
    assert_eq!(o.sep_cm, 50);
    assert_eq!(o.defender_dist_cm, 1000);
    assert!(!should_evade(&o));
    // safe and fast with space: a knock-on pays
    assert!(should_knockon(&o));
}

#[test]
fn test_resolve_faceup_usually_succeeds() {
    let attacker = make_test_attacker();
    // rolls 0.00, 0.01, ..., 0.99 in thousandths
    let success_count = (0..100u32)
        .filter(|i| judge_technique(DribbleTechnique::FaceUp, &attacker, None, i * 10) == TechniqueOutcome::Success)
        .count();
    assert!(success_count >= 90, "FaceUp should succeed ~95% of time");
    assert_eq!(success_count, 95);
}

#[test]
fn test_resolve_knockon_creates_space() {
    let attacker = make_test_attacker();
    let defender = make_test_defender();
    // 168 against 142 at a middle roll: the knock-on succeeds
    assert_eq!(judge_technique(DribbleTechnique::KnockOn, &attacker, Some(&defender), 500), TechniqueOutcome::Success);
}

#[test]
fn test_resolve_feint_changes_direction() {
    let attacker = make_test_attacker();
    // 217 against an average defender's 100 at a low roll: the feint succeeds
    assert_eq!(judge_technique(DribbleTechnique::Feint, &attacker, None, 300), TechniqueOutcome::Success);
}

#[test]
fn technique_partial_and_failure_bands() {
    let avg = PlayerAttributes::default();
    // shielding: 100 against 100; success needs a roll under 0.5
    assert_eq!(judge_technique(DribbleTechnique::Shielding, &avg, None, 499), TechniqueOutcome::Success);
    assert_eq!(judge_technique(DribbleTechnique::Shielding, &avg, None, 500), TechniqueOutcome::Partial);
    // shifted by 20 per unit of roll: at 1.0 the bar is 110, the partial margin 15 keeps it
    assert_eq!(judge_technique(DribbleTechnique::Shielding, &avg, None, 1000), TechniqueOutcome::Partial);
    let mut weak = PlayerAttributes::default();
    weak.strength = 30;
    weak.balance = 30;
    // 60 against 100: even the lowest roll (bar 90) leaves it short by more than 15
    assert_eq!(judge_technique(DribbleTechnique::Shielding, &weak, None, 0), TechniqueOutcome::Failed);
    // a knock-on has no partial success: 110 against 100 fails only past a roll of 1.5
    assert_eq!(judge_technique(DribbleTechnique::KnockOn, &avg, None, 1000), TechniqueOutcome::Success);
    assert_eq!(judge_technique(DribbleTechnique::KnockOn, &avg, None, 1500), TechniqueOutcome::Failed);
}
