use of_core::geometry::Coord10;
use of_core::offball::{
    calculate_line_anchor_x, determine_urgency, estimate_defensive_line, determine_phase, get_intent_priority, get_player_line_role, is_transition_window, player_phase,
    ttl_for_phase, GamePhase, OffBallIntent, Urgency, DEFAULT_TTL_TICKS, MAX_DECISIONS_NORMAL,
    MAX_DECISIONS_TRANSITION, TRANSITION_TTL_TICKS,
};
use of_core::offball_scheduler::{
    apply_force_expire_triggers, select_players_for_decision, OffBallObjective,
};

fn m(x: f64, y: f64) -> Coord10 {
    Coord10 { x: (x * 10.0).round() as i32, y: (y * 10.0).round() as i32 }
}

fn make_positions() -> [Coord10; 22] {
    let mut pos = [m(52.5, 34.0); 22];
    for i in 0..11 {
        pos[i] = m(10.0 + i as f64 * 8.0, 20.0 + (i % 3) as f64 * 14.0);
    }
    for i in 11..22 {
        pos[i] = m(95.0 - (i - 11) as f64 * 8.0, 20.0 + (i % 3) as f64 * 14.0);
    }
    pos
}

#[test]
fn test_select_players_respects_limit() {
    let objectives = [OffBallObjective::default(); 22];
    let positions = make_positions();
    let ball_pos = m(52.5, 34.0);
    let selected = select_players_for_decision(&objectives, &positions, ball_pos, Some(5), false, 100);
    assert!(selected.len() <= MAX_DECISIONS_NORMAL);
    assert!(!selected.contains(&5));
}

#[test]
fn test_select_players_transition_allows_more() {
    let objectives = [OffBallObjective::default(); 22];
    let positions = make_positions();
    let ball_pos = m(52.5, 34.0);
    let normal = select_players_for_decision(&objectives, &positions, ball_pos, None, false, 100);
    let transition = select_players_for_decision(&objectives, &positions, ball_pos, None, true, 100);
    assert!(transition.len() >= normal.len());
}

#[test]
fn test_force_expire_on_possession_change() {
    let mut objectives = [OffBallObjective::default(); 22];
    objectives[0] = OffBallObjective::new(OffBallIntent::LinkPlayer, m(50.0, 30.0), Urgency::Jog, 200, 800);
    let positions = make_positions();
    let staminas = [100u8; 22];
    apply_force_expire_triggers(&mut objectives, &positions, &staminas, m(50.0, 34.0), true, 100);
    assert!(objectives[0].is_expired(100));
}

#[test]
fn test_force_expire_on_ball_proximity() {
    let mut objectives = [OffBallObjective::default(); 22];
    let mut positions = make_positions();
    positions[0] = m(50.0, 34.0);
    objectives[0] = OffBallObjective::new(OffBallIntent::LinkPlayer, m(60.0, 30.0), Urgency::Jog, 200, 800);
    let staminas = [100u8; 22];
    apply_force_expire_triggers(&mut objectives, &positions, &staminas, m(52.0, 34.0), false, 100);
    assert!(objectives[0].is_expired(100));
}

#[test]
fn test_is_transition_window() {
    assert!(is_transition_window(0));
    assert!(is_transition_window(7));
    assert!(!is_transition_window(8));
    assert!(!is_transition_window(100));
}

#[test]
fn test_objective_expiry() {
    let obj = OffBallObjective { intent: OffBallIntent::LinkPlayer, expire_tick: 100, ..Default::default() };
    assert!(!obj.is_expired(99));
    assert!(obj.is_expired(100));
    assert!(obj.is_expired(101));
}

#[test]
fn test_objective_validity() {
    let valid = OffBallObjective { intent: OffBallIntent::SpaceAttacker, ..Default::default() };
    let invalid = OffBallObjective::default();
    assert!(valid.is_valid());
    assert!(!invalid.is_valid());
}

#[test]
fn test_intent_priority() {
    assert_eq!(get_intent_priority(OffBallIntent::SpaceAttacker), 3);
    assert_eq!(get_intent_priority(OffBallIntent::LinkPlayer), 2);
    assert_eq!(get_intent_priority(OffBallIntent::WidthHolder), 1);
    assert_eq!(get_intent_priority(OffBallIntent::NoIntent), 0);
}

#[test]
fn test_game_phase() {
    assert!(GamePhase::TransitionWin.is_transition());
    assert!(GamePhase::TransitionLoss.is_transition());
    assert!(!GamePhase::Attacking.is_transition());

    assert!(GamePhase::Attacking.is_attacking());
    assert!(GamePhase::TransitionWin.is_attacking());
    assert!(!GamePhase::Defending.is_attacking());
}

// ---------------------------------------------------------------------------
// Further cases
// ---------------------------------------------------------------------------

#[test]
fn select_players_takes_nearest_then_lines_then_due() {
    let mut objectives = [OffBallObjective::default(); 22];
    // every objective is live except player 20's
    for i in 0..22 {
        objectives[i] = OffBallObjective::new(OffBallIntent::LinkPlayer, m(50.0, 30.0), Urgency::Jog, 500, 500);
    }
    objectives[20] = OffBallObjective::default();
    let positions = make_positions();
    let ball_pos = m(52.5, 34.0);
    let selected = select_players_for_decision(&objectives, &positions, ball_pos, None, false, 100);
    // four nearest the ball first, nearest first
    let mut ranked: Vec<usize> = (0..22).collect();
    let d = |i: usize| {
        let dx = (positions[i].x - ball_pos.x) as i64;
        let dy = (positions[i].y - ball_pos.y) as i64;
        dx * dx + dy * dy
    };
    ranked.sort_by_key(|&i| (d(i), i));
    assert_eq!(&selected[..4], &ranked[..4]);
    // then one per line: the nearest unchosen player of defence, midfield, attack
    let line_of = |i: usize| (positions[i].x / 350) as usize;
    let mut expected = ranked[..4].to_vec();
    for line in 0..3 {
        if expected.len() >= MAX_DECISIONS_NORMAL {
            break;
        }
        if let Some(&c) = ranked.iter().find(|&&c| !expected.contains(&c) && line_of(c) == line) {
            expected.push(c);
        }
    }
    // then the due player (20), if there is room
    if expected.len() < MAX_DECISIONS_NORMAL && !expected.contains(&20) {
        expected.push(20);
    }
    assert_eq!(selected, expected);
    assert!(selected.len() <= MAX_DECISIONS_NORMAL);
}

#[test]
fn select_players_no_duplicates_and_quota() {
    let objectives = [OffBallObjective::default(); 22];
    let positions = make_positions();
    let selected = select_players_for_decision(&objectives, &positions, m(20.0, 10.0), Some(3), true, 0);
    assert_eq!(selected.len(), MAX_DECISIONS_TRANSITION);
    let mut sorted = selected.clone();
    sorted.sort();
    sorted.dedup();
    assert_eq!(sorted.len(), selected.len());
    assert!(!selected.contains(&3));
}

#[test]
fn force_expire_leaves_other_objectives() {
    let mut objectives = [OffBallObjective::default(); 22];
    let positions = make_positions();
    // player 1 at (18, 34): far from the ball, target 10 m away
    objectives[1] = OffBallObjective::new(OffBallIntent::WidthHolder, m(28.0, 34.0), Urgency::Jog, 200, 500);
    // player 2 sprinting on low stamina
    objectives[2] = OffBallObjective::new(OffBallIntent::SpaceAttacker, m(40.0, 60.0), Urgency::Sprint, 200, 500);
    // player 3 with a target off the pitch
    objectives[3] = OffBallObjective::new(OffBallIntent::Lurker, m(-1.0, 30.0), Urgency::Jog, 200, 500);
    // player 4 with a target on its own position
    objectives[4] = OffBallObjective::new(OffBallIntent::Screen, positions[4], Urgency::Walk, 200, 500);
    let mut staminas = [100u8; 22];
    staminas[2] = 10;
    let before = objectives;
    apply_force_expire_triggers(&mut objectives, &positions, &staminas, m(100.0, 5.0), false, 50);
    assert_eq!(objectives[1], before[1]);
    assert_eq!(objectives[2].expire_tick, 50);
    assert_eq!(objectives[3].expire_tick, 50);
    assert_eq!(objectives[4].expire_tick, 50);
    // an objective without intent is never touched
    assert_eq!(objectives[0], before[0]);
}

#[test]
fn objective_new_takes_priority_of_intent() {
    let o = OffBallObjective::new(OffBallIntent::SpaceAttacker, m(1.0, 2.0), Urgency::Sprint, 9, 1000);
    assert_eq!(o.priority, 3);
    assert_eq!(o.target_pos(), Coord10 { x: 10, y: 20 });
    let mut o2 = o;
    o2.force_expire(4);
    assert_eq!(o2.expire_tick, 4);
    o2.clear();
    assert_eq!(o2, OffBallObjective::default());
}

#[test]
fn phases_and_roles() {
    assert_eq!(determine_phase(0, false, 0), GamePhase::Attacking);
    assert_eq!(player_phase(3, 0, 2), GamePhase::TransitionWin);
    assert_eq!(player_phase(14, 0, 2), GamePhase::TransitionLoss);
    assert_eq!(player_phase(3, 1, 20), GamePhase::Defending);
    assert_eq!(get_player_line_role(0), 0);
    assert_eq!(get_player_line_role(12), 1);
    assert_eq!(get_player_line_role(7), 2);
    assert_eq!(get_player_line_role(21), 3);
    assert_eq!(ttl_for_phase(GamePhase::TransitionWin, DEFAULT_TTL_TICKS, TRANSITION_TTL_TICKS), 6);
    assert_eq!(ttl_for_phase(GamePhase::Defending, DEFAULT_TTL_TICKS, TRANSITION_TTL_TICKS), 12);
    assert!(OffBallIntent::Screen.is_defensive());
    assert!(!OffBallIntent::NoIntent.is_attacking());
}

#[test]
fn urgency_sprints_in_transitions_and_near_the_own_goal() {
    // a transition with stamina above 0.2
    assert_eq!(determine_urgency(OffBallIntent::LinkPlayer, GamePhase::TransitionWin, 500, 525, true), Urgency::Sprint);
    assert_eq!(determine_urgency(OffBallIntent::LinkPlayer, GamePhase::TransitionWin, 200, 525, true), Urgency::Jog);
    // defending with the ball 25 m from the own goal line (x = 0 for a team attacking right)
    assert_eq!(determine_urgency(OffBallIntent::TrackBack, GamePhase::Defending, 500, 250, true), Urgency::Sprint);
    // 30 m is not within 30 m
    assert_eq!(determine_urgency(OffBallIntent::TrackBack, GamePhase::Defending, 500, 300, true), Urgency::Jog);
    // the same ball is far from the goal of a team attacking left
    assert_eq!(determine_urgency(OffBallIntent::TrackBack, GamePhase::Defending, 500, 250, false), Urgency::Jog);
    // attacking intents jog outside transitions
    assert_eq!(determine_urgency(OffBallIntent::SpaceAttacker, GamePhase::Attacking, 900, 50, true), Urgency::Jog);
}

#[test]
fn defensive_line_is_the_deepest_outfield_player() {
    let pos = make_positions();
    // home outfield x: 18, 26, ..., 90 m; away outfield: 87, 79, ..., 15 m
    assert_eq!(estimate_defensive_line(&pos, 0, true), 180);
    assert_eq!(estimate_defensive_line(&pos, 1, false), 870);
    // the keeper does not count
    let mut p = pos;
    p[0] = m(1.0, 34.0);
    assert_eq!(estimate_defensive_line(&p, 0, true), 180);
}

#[test]
fn line_anchors() {
    // keeper 5 m off the goal line
    assert_eq!(calculate_line_anchor_x(600, 0, true, true), 50);
    assert_eq!(calculate_line_anchor_x(600, 0, true, false), 1000);
    // attacking: defence 14 m behind the ball, midfield on it, attack 16 m ahead
    assert_eq!(calculate_line_anchor_x(600, 1, true, true), 460);
    assert_eq!(calculate_line_anchor_x(600, 2, true, true), 600);
    assert_eq!(calculate_line_anchor_x(600, 3, true, true), 760);
    // defending: a block 30 m out, kept within the margins
    assert_eq!(calculate_line_anchor_x(600, 1, false, true), 160);
    assert_eq!(calculate_line_anchor_x(1040, 3, true, true), 1000);
    assert_eq!(calculate_line_anchor_x(600, 1, false, false), 890);
}
