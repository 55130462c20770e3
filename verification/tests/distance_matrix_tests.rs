use of_core::geometry::Coord10;
use of_core::operations::distance_matrix::PlayerDistanceMatrix;

fn m(x: f64, y: f64) -> Coord10 {
    Coord10 { x: (x * 10.0).round() as i32, y: (y * 10.0).round() as i32 }
}

const CY: f64 = 34.0;

/// Distance in metres from a squared distance in (0.1 m)^2.
fn metres(d_sq: u128) -> f64 {
    (d_sq as f64).sqrt() / 10.0
}

fn make_test_positions() -> [Coord10; 22] {
    std::array::from_fn(|i| {
        if i < 11 {
            m(10.0 + i as f64 * 4.0, 20.0 + (i % 4) as f64 * 10.0)
        } else {
            m(55.0 + (i - 11) as f64 * 4.0, 20.0 + ((i - 11) % 4) as f64 * 10.0)
        }
    })
}

#[test]
fn test_new_matrix() {
    let matrix = PlayerDistanceMatrix::new();
    assert_eq!(matrix.last_update_tick(), 0);
    assert_eq!(matrix.get_sq(0, 1), 0);
}

#[test]
fn test_update_and_get() {
    let positions = make_test_positions();
    let mut matrix = PlayerDistanceMatrix::new();
    matrix.update(&positions, 1);
    for i in 0..22 {
        assert_eq!(matrix.get_sq(i, i), 0);
    }
    for i in 0..22 {
        for j in 0..22 {
            assert_eq!(matrix.get_sq(i, j), matrix.get_sq(j, i));
        }
    }
    let dist_0_1 = metres(matrix.get_sq(0, 1));
    assert!(dist_0_1 > 10.0 && dist_0_1 < 11.0, "Expected ~10.77, got {}", dist_0_1);
}

#[test]
fn test_skip_redundant_update() {
    let positions = make_test_positions();
    let mut matrix = PlayerDistanceMatrix::new();
    matrix.update(&positions, 5);
    assert_eq!(matrix.last_update_tick(), 5);
    let mut modified_positions = positions;
    modified_positions[0] = m(0.0, 0.0);
    matrix.update(&modified_positions, 5);
    assert!(metres(matrix.get_sq(0, 1)) > 10.0, "Update should have been skipped");
}

#[test]
fn test_get_checked() {
    let matrix = PlayerDistanceMatrix::new();
    assert!(matrix.get_checked_sq(0, 1).is_some());
    assert!(matrix.get_checked_sq(21, 21).is_some());
    assert!(matrix.get_checked_sq(22, 0).is_none());
    assert!(matrix.get_checked_sq(0, 22).is_none());
}

#[test]
fn test_is_stale() {
    let positions = make_test_positions();
    let mut matrix = PlayerDistanceMatrix::new();
    assert!(matrix.is_stale(1));
    matrix.update(&positions, 1);
    assert!(!matrix.is_stale(1));
    assert!(matrix.is_stale(2));
}

#[test]
fn test_nearest_teammate() {
    let mut positions = make_test_positions();
    positions[1] = m(11.0, 21.0);
    let mut matrix = PlayerDistanceMatrix::new();
    matrix.update(&positions, 1);
    let nearest = matrix.nearest_teammate(0);
    assert!(nearest.is_some());
    let (idx, d_sq) = nearest.unwrap();
    assert_eq!(idx, 1);
    assert!(metres(d_sq) < 2.0);
}

#[test]
fn test_nearest_opponent() {
    let mut positions = make_test_positions();
    positions[11] = m(12.0, 22.0);
    let mut matrix = PlayerDistanceMatrix::new();
    matrix.update(&positions, 1);
    let nearest = matrix.nearest_opponent(0);
    assert!(nearest.is_some());
    let (idx, d_sq) = nearest.unwrap();
    assert_eq!(idx, 11);
    assert!(metres(d_sq) < 4.0);
}

#[test]
fn test_teammates_within() {
    let mut positions = make_test_positions();
    positions[0] = m(50.0, CY);
    positions[1] = m(52.0, CY);
    positions[2] = m(54.0, CY);
    positions[3] = m(60.0, CY);
    for i in 4..11 {
        positions[i] = m(0.0, 0.0);
    }
    let mut matrix = PlayerDistanceMatrix::new();
    matrix.update(&positions, 1);
    assert_eq!(matrix.teammates_within(0, 30), 1);
    assert_eq!(matrix.teammates_within(0, 50), 2);
    assert_eq!(matrix.teammates_within(0, 150), 3);
}

#[test]
fn test_opponents_within() {
    let mut positions = make_test_positions();
    positions[0] = m(50.0, CY);
    positions[11] = m(52.0, CY);
    positions[12] = m(55.0, CY);
    positions[13] = m(60.0, CY);
    let mut matrix = PlayerDistanceMatrix::new();
    matrix.update(&positions, 1);
    assert_eq!(matrix.opponents_within(0, 30), 1);
    assert_eq!(matrix.opponents_within(0, 60), 2);
    assert_eq!(matrix.opponents_within(0, 150), 3);
}

#[test]
fn test_players_within() {
    let mut positions = make_test_positions();
    positions[0] = m(50.0, CY);
    positions[1] = m(52.0, CY);
    positions[11] = m(53.0, CY);
    positions[2] = m(55.0, CY);
    for i in 3..11 {
        positions[i] = m(0.0, 0.0);
    }
    for i in 12..22 {
        positions[i] = m(100.0, 0.0);
    }
    let mut matrix = PlayerDistanceMatrix::new();
    matrix.update(&positions, 1);
    let players = matrix.players_within(0, 60);
    assert_eq!(players.len(), 3);
    assert_eq!(players[0].0, 1);
    assert_eq!(players[1].0, 11);
    assert_eq!(players[2].0, 2);
}

// ---------------------------------------------------------------------------
// Further cases
// ---------------------------------------------------------------------------

#[test]
fn exact_squared_distances_and_ties() {
    let mut positions = make_test_positions();
    positions[0] = m(50.0, CY);
    positions[3] = m(53.0, CY); // 3 m
    positions[2] = m(50.0, 37.0); // 3 m, lower index
    positions[1] = m(54.0, 37.0); // 5 m
    let mut matrix = PlayerDistanceMatrix::new();
    matrix.update(&positions, 2);
    assert_eq!(matrix.get_sq(0, 1), 2500);
    assert_eq!(matrix.nearest_teammate(0), Some((2, 900)));
    // the boundary counts: 5 m is within 5 m
    assert_eq!(matrix.teammates_within(0, 50), 3);
    let near = matrix.players_within(0, 50);
    assert_eq!(near, vec![(2, 900), (3, 900), (1, 2500)]);
}
