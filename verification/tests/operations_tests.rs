use of_core::geometry::{Ball, Coord10, CENTER_Y_COORD10};
use of_core::operations::ball_ops::BallOps;
use of_core::operations::players_ops::PlayersOps;
use of_core::operations::team_ops::{TeamBallZone, TeamOps};

fn m(x: f64, y: f64) -> Coord10 {
    Coord10 { x: (x * 10.0).round() as i32, y: (y * 10.0).round() as i32 }
}

const CY: f64 = 34.0;

fn ball_test_positions() -> [Coord10; 22] {
    std::array::from_fn(|i| m(50.0 + i as f64 * 2.0, CY))
}

#[test]
fn test_ball_not_owned() {
    let positions = ball_test_positions();
    let ball = Ball::default();
    let ops = BallOps::new(&ball, &positions);
    assert!(!ops.is_owned());
    assert!(ops.owner().is_none());
}

#[test]
fn test_ball_owned() {
    let positions = ball_test_positions();
    let mut ball = Ball::default();
    ball.current_owner = Some(5);
    let ops = BallOps::new(&ball, &positions);
    assert!(ops.is_owned());
    assert_eq!(ops.owner(), Some(5));
}

#[test]
fn test_penalty_area() {
    let positions = ball_test_positions();
    let mut ball = Ball::default();

    ball.position = m(10.0, CY);
    let ops = BallOps::new(&ball, &positions);
    assert!(ops.is_in_penalty_area(true));
    assert!(!ops.is_in_penalty_area(false));

    ball.position = m(95.0, CY);
    let ops = BallOps::new(&ball, &positions);
    assert!(!ops.is_in_penalty_area(true));
    assert!(ops.is_in_penalty_area(false));
}

fn players_test_positions() -> [Coord10; 22] {
    std::array::from_fn(|i| {
        if i < 11 {
            m(25.0 + i as f64 * 3.0, 30.0 + i as f64 * 2.0)
        } else {
            m(70.0 + (i - 11) as f64 * 3.0, 30.0 + (i - 11) as f64 * 2.0)
        }
    })
}

#[test]
fn test_teammate_indices() {
    let positions = players_test_positions();
    let ops = PlayersOps::new(5, &positions, None);
    let teammates = ops.teammate_indices();
    assert_eq!(teammates.len(), 10);
    assert!(!teammates.contains(&5));
    assert!(teammates.contains(&0));
    assert!(teammates.contains(&10));
}

#[test]
fn test_opponent_indices() {
    let positions = players_test_positions();
    let ops = PlayersOps::new(5, &positions, None);
    let opponents = ops.opponent_indices();
    assert_eq!(opponents.len(), 11);
    assert!(opponents.contains(&11));
    assert!(opponents.contains(&21));
}

#[test]
fn test_opponent_with_ball_nearby() {
    let mut positions = players_test_positions();
    positions[5] = m(50.0, CY);
    positions[15] = m(52.0, CY);

    let ops_nearby = PlayersOps::new(5, &positions, Some(15));
    assert!(ops_nearby.opponent_with_ball_nearby());

    let ops_teammate = PlayersOps::new(5, &positions, Some(3));
    assert!(!ops_teammate.opponent_with_ball_nearby());

    let ops_none = PlayersOps::new(5, &positions, None);
    assert!(!ops_none.opponent_with_ball_nearby());
}

#[test]
fn nearest_players_by_distance_then_index() {
    let mut positions = players_test_positions();
    positions[5] = m(50.0, 34.0);
    positions[2] = m(53.0, 34.0); // 3 m
    positions[7] = m(50.0, 37.0); // 3 m, higher index
    positions[15] = m(51.0, 34.0); // 1 m
    let ops = PlayersOps::new(5, &positions, None);
    assert_eq!(ops.nearest_teammate(), Some(2));
    assert_eq!(ops.nearest_teammates(2), vec![2, 7]);
    assert_eq!(ops.nearest_opponent(), Some(15));
    assert_eq!(ops.nearest_opponents(30).len(), 11);
    // strictly within 3 m: only player 15 among opponents, no teammate
    assert_eq!(ops.opponents_within(30), 1);
    assert_eq!(ops.teammates_within(30), 0);
    assert_eq!(ops.teammates_within(31), 2);
}

fn team_test_positions() -> [Coord10; 22] {
    std::array::from_fn(|i| {
        if i < 11 {
            m(20.0 + i as f64 * 5.0, CY)
        } else {
            m(50.0 + (i - 11) as f64 * 5.0, CY)
        }
    })
}

#[test]
fn team_ops_test_has_ball() {
    let positions = team_test_positions();
    let ball = Ball::default();

    let ops_home = TeamOps::new(true, &ball, &positions, Some(5));
    assert!(ops_home.has_ball());

    let ops_away = TeamOps::new(true, &ball, &positions, Some(15));
    assert!(!ops_away.has_ball());

    let ops_none = TeamOps::new(true, &ball, &positions, None);
    assert!(!ops_none.has_ball());
}

#[test]
fn test_is_attacking() {
    let positions = team_test_positions();
    let mut ball = Ball::default();

    ball.position = m(70.0, CY);
    let ops_home = TeamOps::new(true, &ball, &positions, None);
    assert!(ops_home.is_attacking());

    let ops_away = TeamOps::new(false, &ball, &positions, None);
    assert!(!ops_away.is_attacking());
}

#[test]
fn test_ball_zone() {
    let positions = team_test_positions();
    let mut ball = Ball::default();

    ball.position = m(20.0, CY);
    let ops = TeamOps::new(true, &ball, &positions, None);
    assert_eq!(ops.ball_zone(), TeamBallZone::DefendingThird);

    ball.position = Coord10::center();
    let ops_mid = TeamOps::new(true, &ball, &positions, None);
    assert_eq!(ops_mid.ball_zone(), TeamBallZone::MiddleThird);

    ball.position = m(80.0, CY);
    let ops_att = TeamOps::new(true, &ball, &positions, None);
    assert_eq!(ops_att.ball_zone(), TeamBallZone::AttackingThird);
}

#[test]
fn test_ball_in_box() {
    let positions = team_test_positions();
    let mut ball = Ball::default();

    ball.position = m(10.0, CY);
    let ops = TeamOps::new(true, &ball, &positions, None);
    assert!(ops.ball_in_own_box());
    assert!(!ops.ball_in_opponent_box());

    ball.position = m(95.0, CY);
    let ops_opp = TeamOps::new(true, &ball, &positions, None);
    assert!(!ops_opp.ball_in_own_box());
    assert!(ops_opp.ball_in_opponent_box());
}

#[test]
fn zones_mirror_between_teams() {
    let positions = team_test_positions();
    let mut ball = Ball::default();
    ball.position = m(20.0, CY);
    let home = TeamOps::new(true, &ball, &positions, None);
    let away = TeamOps::new(false, &ball, &positions, None);
    assert_eq!(home.ball_zone(), TeamBallZone::DefendingThird);
    assert_eq!(away.ball_zone(), TeamBallZone::AttackingThird);
    assert!(home.is_defending());
    assert!(away.is_attacking());
    assert_eq!(home.team_indices(), 0..11);
    assert_eq!(away.team_indices(), 11..22);
}

#[test]
fn ball_at_centre_by_default() {
    let ball = Ball::default();
    assert_eq!(ball.position, Coord10 { x: 525, y: CENTER_Y_COORD10 });
    assert!(ball.current_owner.is_none());
}
