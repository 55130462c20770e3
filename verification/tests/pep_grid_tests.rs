use of_core::geometry::Coord10;
use of_core::pep_grid::{Channel, GridCell, PepGrid, ZoneDepth};

/// Half the pitch width, 34 m, in tenths of a metre.
const CY: i32 = 340;

#[test]
fn test_channel_adjacent() {
    let (left, right) = Channel::Center.adjacent();
    assert_eq!(left, Some(Channel::LeftHalfSpace));
    assert_eq!(right, Some(Channel::RightHalfSpace));

    let (left, right) = Channel::LeftWing.adjacent();
    assert_eq!(left, None);
    assert_eq!(right, Some(Channel::LeftHalfSpace));

    let (left, right) = Channel::RightWing.adjacent();
    assert_eq!(left, Some(Channel::RightHalfSpace));
    assert_eq!(right, None);
}

#[test]
fn test_channel_properties() {
    assert!(Channel::LeftWing.is_wing());
    assert!(Channel::RightWing.is_wing());
    assert!(!Channel::Center.is_wing());

    assert!(Channel::LeftHalfSpace.is_half_space());
    assert!(Channel::RightHalfSpace.is_half_space());
    assert!(!Channel::Center.is_half_space());
}

#[test]
fn test_channel_overcrowding() {
    let mut grid = PepGrid::new().with_max_per_channel(2);
    let positions = vec![
        Coord10 { x: 500, y: CY },
        Coord10 { x: 500, y: 350 },
        Coord10 { x: 500, y: 360 },
        Coord10 { x: 500, y: 50 },
    ];
    let indices: Vec<usize> = (0..4).collect();
    grid.update_from_positions(&positions, &indices, 100);
    let moves = grid.resolve_overcrowding();
    assert_eq!(moves.len(), 1);
    let (_, from, to) = moves[0];
    assert_eq!(from, Channel::Center);
    assert!(to == Channel::LeftHalfSpace || to == Channel::RightHalfSpace);
}

#[test]
fn test_find_nearest_free_channel() {
    let mut grid = PepGrid::new().with_max_per_channel(1);
    let positions = vec![Coord10 { x: 500, y: CY }, Coord10 { x: 500, y: 200 }];
    let indices: Vec<usize> = (0..2).collect();
    grid.update_from_positions(&positions, &indices, 100);
    let free = grid.find_nearest_free_channel(Channel::Center);
    assert_eq!(free, Some(Channel::LeftHalfSpace));
}

#[test]
fn test_channel_from_y_position() {
    assert_eq!(Channel::from_y_position(0), Channel::LeftWing);
    assert_eq!(Channel::from_y_position(68), Channel::LeftWing);
    assert_eq!(Channel::from_y_position(136), Channel::LeftHalfSpace);
    assert_eq!(Channel::from_y_position(CY), Channel::Center);
    assert_eq!(Channel::from_y_position(543), Channel::RightHalfSpace);
    assert_eq!(Channel::from_y_position(680), Channel::RightWing);
}

#[test]
fn test_zone_depth_from_position() {
    assert_eq!(ZoneDepth::from_x_position(100, true), ZoneDepth::Defense);
    assert_eq!(ZoneDepth::from_x_position(400, true), ZoneDepth::MidfieldLow);
    assert_eq!(ZoneDepth::from_x_position(600, true), ZoneDepth::MidfieldHigh);
    assert_eq!(ZoneDepth::from_x_position(900, true), ZoneDepth::Attack);
    assert_eq!(ZoneDepth::from_x_position(100, false), ZoneDepth::Attack);
    assert_eq!(ZoneDepth::from_x_position(900, false), ZoneDepth::Defense);
}

#[test]
fn test_pep_grid_update() {
    let mut grid = PepGrid::new();
    let positions = vec![
        Coord10 { x: 500, y: 50 },
        Coord10 { x: 500, y: CY },
        Coord10 { x: 500, y: 350 },
        Coord10 { x: 500, y: 360 },
        Coord10 { x: 500, y: 600 },
    ];
    let indices: Vec<usize> = (0..5).collect();
    grid.update_from_positions(&positions, &indices, 100);
    assert_eq!(grid.channel_count(Channel::LeftWing), 1);
    assert_eq!(grid.channel_count(Channel::Center), 3);
    assert_eq!(grid.channel_count(Channel::RightWing), 1);
    assert!(grid.is_overcrowded(Channel::Center));
}

#[test]
fn test_grid_cell() {
    let cell = GridCell::from_position(Coord10 { x: 600, y: CY }, true);
    assert_eq!(cell.channel, Channel::Center);
    assert_eq!(cell.depth, ZoneDepth::MidfieldHigh);
    // centre in millimetres: 65.625 m along, 34 m across
    let center = cell.center(true);
    assert_eq!(center.0, 65625);
    assert!((center.1 - CY * 100).abs() < 1000);
}

// ---------------------------------------------------------------------------
// Further cases
// ---------------------------------------------------------------------------

#[test]
fn grid_counts_players_per_channel() {
    let mut grid = PepGrid::new();
    let assignments = vec![
        (0usize, Channel::LeftWing),
        (1, Channel::Center),
        (2, Channel::Center),
        (3, Channel::Center),
        (4, Channel::RightWing),
    ];
    grid.update_from_channels(&assignments, 100);
    assert_eq!(grid.channel_count(Channel::LeftWing), 1);
    assert_eq!(grid.channel_count(Channel::Center), 3);
    assert_eq!(grid.channel_count(Channel::RightWing), 1);
    assert_eq!(grid.channel_occupants(Channel::Center), &[1, 2, 3]);
    assert!(grid.is_overcrowded(Channel::Center));
    assert!(!grid.is_overcrowded(Channel::LeftWing));
    assert_eq!(grid.last_update_tick(), 100);
}

#[test]
fn overcrowded_channel_sends_its_last_players_out() {
    let mut grid = PepGrid::new().with_max_per_channel(1);
    let assignments = vec![
        (7usize, Channel::LeftWing),
        (8, Channel::LeftWing),
        (9, Channel::LeftWing),
    ];
    grid.update_from_channels(&assignments, 1);
    let moves = grid.resolve_overcrowding();
    // the wing has one neighbour, the left half-space, with room for one
    assert_eq!(moves, vec![(9, Channel::LeftWing, Channel::LeftHalfSpace)]);
}

#[test]
fn no_free_channel_when_all_full() {
    let mut grid = PepGrid::new().with_max_per_channel(0);
    let assignments = vec![
        (0usize, Channel::LeftWing),
        (1, Channel::LeftHalfSpace),
        (2, Channel::Center),
        (3, Channel::RightHalfSpace),
        (4, Channel::RightWing),
    ];
    grid.update_from_channels(&assignments, 1);
    assert_eq!(grid.find_nearest_free_channel(Channel::Center), None);
    let grid = PepGrid::new();
    assert_eq!(grid.find_nearest_free_channel(Channel::RightWing), Some(Channel::RightHalfSpace));
}

#[test]
fn debug_state_lists_channels() {
    let mut grid = PepGrid::new();
    let assignments = vec![(3usize, Channel::LeftWing), (0, Channel::Center), (1, Channel::Center)];
    grid.update_from_channels(&assignments, 1);
    assert_eq!(grid.debug_state(), "LW: 1 [3] | LHS: 0 [] | C: 2 [0, 1] | RHS: 0 [] | RW: 0 []");
}

#[test]
fn channel_index_round_trip() {
    for i in 0..5 {
        assert_eq!(Channel::from_index(i).unwrap().index(), i);
    }
    assert_eq!(Channel::from_index(5), None);
    let cell = GridCell::new(Channel::Center, ZoneDepth::MidfieldHigh);
    assert_eq!(cell.channel, Channel::Center);
    assert!(ZoneDepth::Attack.is_attacking());
    assert!(!ZoneDepth::Defense.is_attacking());
}
