use of_core::geometry::Coord10;
use of_core::offball::{OffBallIntent, Urgency};
use of_core::offball_resolver::{check_collision, resolve_collision, resolve_priority_conflict};
use of_core::offball_scheduler::OffBallObjective;

fn m(x: f64, y: f64) -> Coord10 {
    Coord10 { x: (x * 10.0).round() as i32, y: (y * 10.0).round() as i32 }
}

fn make_objective(x: f64, y: f64, intent: OffBallIntent) -> OffBallObjective {
    OffBallObjective::new(intent, m(x, y), Urgency::Jog, 100, 800)
}

#[test]
fn test_check_collision_no_collision() {
    let mut objectives = [OffBallObjective::default(); 22];
    objectives[0] = make_objective(50.0, 34.0, OffBallIntent::LinkPlayer);
    assert!(!check_collision(m(70.0, 34.0), &objectives, 5));
}

#[test]
fn test_check_collision_with_collision() {
    let mut objectives = [OffBallObjective::default(); 22];
    objectives[0] = make_objective(50.0, 34.0, OffBallIntent::LinkPlayer);
    assert!(check_collision(m(51.0, 34.0), &objectives, 5));
}

#[test]
fn test_check_collision_excludes_self() {
    let mut objectives = [OffBallObjective::default(); 22];
    objectives[5] = make_objective(50.0, 34.0, OffBallIntent::LinkPlayer);
    assert!(!check_collision(m(50.0, 34.0), &objectives, 5));
}

#[test]
fn test_resolve_collision_no_conflict() {
    let objectives = [OffBallObjective::default(); 22];
    assert_eq!(resolve_collision(m(50.0, 34.0), &objectives, 0), Some(m(50.0, 34.0)));
}

#[test]
fn test_resolve_collision_shifts() {
    let mut objectives = [OffBallObjective::default(); 22];
    objectives[0] = make_objective(50.0, 34.0, OffBallIntent::LinkPlayer);
    let result = resolve_collision(m(51.0, 34.0), &objectives, 5);
    assert!(result.is_some());
    let p = result.unwrap();
    assert!(!check_collision(p, &objectives, 5));
    // the first shift, 3 m up the width, is free
    assert_eq!(p, m(51.0, 37.0));
}

#[test]
fn test_priority_conflict_resolution() {
    let high_priority = OffBallObjective::new(OffBallIntent::SpaceAttacker, m(50.0, 34.0), Urgency::Sprint, 100, 900);
    let low_priority = OffBallObjective::new(OffBallIntent::WidthHolder, m(51.0, 34.0), Urgency::Jog, 100, 800);
    assert_eq!(resolve_priority_conflict(0, &high_priority, 1, &low_priority), Some(1));
}

#[test]
fn collision_boundary_is_two_metres() {
    let mut objectives = [OffBallObjective::default(); 22];
    objectives[0] = make_objective(50.0, 34.0, OffBallIntent::LinkPlayer);
    // 1.9 m collides, exactly 2 m does not
    assert!(check_collision(m(51.9, 34.0), &objectives, 5));
    assert!(!check_collision(m(52.0, 34.0), &objectives, 5));
    // an objective without intent never collides
    objectives[0].intent = OffBallIntent::NoIntent;
    assert!(!check_collision(m(50.0, 34.0), &objectives, 5));
}

#[test]
fn resolve_tries_shifts_in_order_and_may_fail() {
    let mut objectives = [OffBallObjective::default(); 22];
    objectives[0] = make_objective(50.0, 34.0, OffBallIntent::LinkPlayer);
    objectives[1] = make_objective(50.0, 37.0, OffBallIntent::LinkPlayer);
    // up is blocked, down (31 m) is free
    assert_eq!(resolve_collision(m(50.0, 34.0), &objectives, 9), Some(m(50.0, 31.0)));
    objectives[2] = make_objective(50.0, 31.0, OffBallIntent::LinkPlayer);
    // up and down blocked: forward
    assert_eq!(resolve_collision(m(50.0, 34.0), &objectives, 9), Some(m(53.0, 34.0)));
    objectives[3] = make_objective(53.0, 34.0, OffBallIntent::LinkPlayer);
    assert_eq!(resolve_collision(m(50.0, 34.0), &objectives, 9), Some(m(47.0, 34.0)));
    objectives[4] = make_objective(47.0, 34.0, OffBallIntent::LinkPlayer);
    assert_eq!(resolve_collision(m(50.0, 34.0), &objectives, 9), None);
}

#[test]
fn shifts_stay_on_the_pitch() {
    let mut objectives = [OffBallObjective::default(); 22];
    objectives[0] = make_objective(104.0, 67.0, OffBallIntent::LinkPlayer);
    // up is clamped to 67 m and still collides; down goes to 64 m
    assert_eq!(resolve_collision(m(104.0, 67.0), &objectives, 9), Some(m(104.0, 64.0)));
}

#[test]
fn priority_conflict_by_confidence_and_distance() {
    let a = OffBallObjective::new(OffBallIntent::LinkPlayer, m(50.0, 34.0), Urgency::Jog, 100, 700);
    let b = OffBallObjective::new(OffBallIntent::LinkPlayer, m(51.0, 34.0), Urgency::Jog, 100, 800);
    // equal priority: lower confidence gives way
    assert_eq!(resolve_priority_conflict(3, &a, 4, &b), Some(3));
    // equal priority and confidence: the second gives way
    assert_eq!(resolve_priority_conflict(3, &a, 4, &a), Some(4));
    // far apart: no conflict
    let far = OffBallObjective::new(OffBallIntent::LinkPlayer, m(60.0, 34.0), Urgency::Jog, 100, 800);
    assert_eq!(resolve_priority_conflict(3, &a, 4, &far), None);
}
