use of_core::geometry::Coord10;
use of_core::operations::space_analysis::{CellOccupancy, SpaceAnalysis, GRID_HEIGHT, GRID_WIDTH};

fn m(x: f64, y: f64) -> Coord10 {
    Coord10 { x: (x * 10.0).round() as i32, y: (y * 10.0).round() as i32 }
}

const CX: f64 = 52.5;
const CY: f64 = 34.0;

fn make_empty_positions() -> [Coord10; 22] {
    std::array::from_fn(|i| if i < 11 { m(0.0, 0.0) } else { m(100.0, 60.0) })
}

#[test]
fn test_new_grid() {
    let space = SpaceAnalysis::new();
    assert_eq!(space.last_update_tick(), 0);
    assert_eq!(space.empty_cell_count(), GRID_WIDTH * GRID_HEIGHT);
}

#[test]
fn test_pos_to_cell() {
    assert_eq!(SpaceAnalysis::pos_to_cell(m(0.0, 0.0)), (0, 0));
    assert_eq!(SpaceAnalysis::pos_to_cell(m(5.0, 5.0)), (0, 0));
    assert_eq!(SpaceAnalysis::pos_to_cell(m(10.0, 10.0)), (1, 1));
    assert_eq!(SpaceAnalysis::pos_to_cell(m(CX, CY)), (5, 3));
    assert_eq!(SpaceAnalysis::pos_to_cell(m(105.0, 68.0)), (10, 6));
}

#[test]
fn test_update_positions() {
    let positions = make_empty_positions();
    let mut space = SpaceAnalysis::new();
    space.update(&positions, 1);
    assert_eq!(space.cell(0, 0).home_count, 11);
    assert_eq!(space.cell(0, 0).away_count, 0);
    assert_eq!(space.cell(10, 6).home_count, 0);
    assert_eq!(space.cell(10, 6).away_count, 11);
    assert!(space.cell(5, 3).is_empty());
}

#[test]
fn space_analysis_test_skip_redundant_update() {
    let positions = make_empty_positions();
    let mut space = SpaceAnalysis::new();
    space.update(&positions, 5);
    assert_eq!(space.last_update_tick(), 5);
    let mut modified = positions;
    modified[0] = m(50.0, CY);
    space.update(&modified, 5);
    assert_eq!(space.cell(0, 0).home_count, 11);
}

#[test]
fn test_is_crowded() {
    let positions = make_empty_positions();
    let mut space = SpaceAnalysis::new();
    space.update(&positions, 1);
    assert!(space.is_crowded(m(0.0, 0.0)));
    assert!(!space.is_crowded(m(50.0, CY)));
}

#[test]
fn test_is_open() {
    let positions = make_empty_positions();
    let mut space = SpaceAnalysis::new();
    space.update(&positions, 1);
    assert!(!space.is_open(m(0.0, 0.0)));
    assert!(space.is_open(m(50.0, CY)));
}

#[test]
fn test_empty_cells() {
    let positions = make_empty_positions();
    let mut space = SpaceAnalysis::new();
    space.update(&positions, 1);
    let empty = space.empty_cells();
    assert_eq!(empty.len(), GRID_WIDTH * GRID_HEIGHT - 2);
    assert!(!empty.contains(&(0, 0)));
    assert!(!empty.contains(&(10, 6)));
}

#[test]
fn test_pressure_map() {
    let positions = make_empty_positions();
    let mut space = SpaceAnalysis::new();
    space.update(&positions, 1);
    let pressure = space.pressure_map(true);
    assert_eq!(pressure[10][6], 11);
    assert_eq!(pressure[0][0], 0);
}

#[test]
fn test_crowded_cell_count() {
    let positions = make_empty_positions();
    let mut space = SpaceAnalysis::new();
    space.update(&positions, 1);
    assert_eq!(space.crowded_cell_count(), 2);
}

#[test]
fn test_zone_player_count_empty() {
    let space = SpaceAnalysis::new();
    assert_eq!(space.zone_player_count(m(50.0, CY)), 0);
}

#[test]
fn test_zone_player_count_with_players() {
    let mut positions = make_empty_positions();
    positions[0] = m(55.0, 35.0);
    positions[1] = m(55.0, 35.0);
    positions[2] = m(55.0, 35.0);
    positions[11] = m(55.0, 35.0);
    positions[12] = m(55.0, 35.0);
    let mut space = SpaceAnalysis::new();
    space.update(&positions, 1);
    assert_eq!(space.zone_player_count(m(55.0, 35.0)), 5);
}

#[test]
fn test_least_crowded_zone_direction_empty() {
    let space = SpaceAnalysis::new();
    let (cx, cy) = SpaceAnalysis::pos_to_cell(m(55.0, 35.0));
    assert_eq!(space.least_crowded_neighbour(cx, cy), (0, 0));
}

#[test]
fn test_least_crowded_zone_direction_escape() {
    let mut positions = make_empty_positions();
    positions[0] = m(55.0, 35.0);
    positions[1] = m(55.0, 35.0);
    positions[2] = m(55.0, 35.0);
    let mut space = SpaceAnalysis::new();
    space.update(&positions, 1);
    let (cx, cy) = SpaceAnalysis::pos_to_cell(m(55.0, 35.0));
    assert!(space.least_crowded_neighbour(cx, cy) != (0, 0));
}

#[test]
fn test_best_escape_direction() {
    let mut positions = make_empty_positions();
    positions[0] = m(55.0, 35.0);
    let mut space = SpaceAnalysis::new();
    space.update(&positions, 1);
    let (cx, cy) = SpaceAnalysis::pos_to_cell(m(5.0, 5.0));
    let dir = space.least_crowded_neighbour(cx, cy);
    assert!(dir.0 > 0 || dir.1 > 0, "Should escape from crowded area");
}

#[test]
fn test_cell_indices() {
    let space = SpaceAnalysis::new();
    assert_eq!(space.cell_indices(m(CX, CY)), (5, 3));
    assert_eq!(space.cell_indices(m(0.0, 0.0)), (0, 0));
}

// ---------------------------------------------------------------------------
// Further cases
// ---------------------------------------------------------------------------

#[test]
fn least_crowded_neighbour_first_in_compass_order() {
    // centre cell crowded, every neighbour empty: north (0, 1) comes first
    let mut positions = make_empty_positions();
    for i in 0..4 {
        positions[i] = m(55.0, 35.0);
    }
    let mut space = SpaceAnalysis::new();
    space.update(&positions, 1);
    assert_eq!(space.least_crowded_neighbour(5, 3), (0, 1));
}

#[test]
fn occupancy_and_staleness() {
    let mut space = SpaceAnalysis::new();
    assert!(space.is_stale(3));
    let positions = make_empty_positions();
    space.update(&positions, 3);
    assert!(!space.is_stale(3));
    assert_eq!(space.occupancy_at(m(1.0, 1.0)), 11);
    assert_eq!(*space.cell_at(m(101.0, 61.0)), CellOccupancy { home_count: 0, away_count: 11 });
    let c = CellOccupancy { home_count: 1, away_count: 1 };
    assert_eq!(c.total(), 2);
    assert!(c.is_light());
    assert!(!c.is_crowded());
    assert_eq!(space.empty_cell_count(), 75);
    // positions off the pitch are clamped to the border cells
    assert_eq!(SpaceAnalysis::pos_to_cell(Coord10 { x: -40, y: 900 }), (0, 6));
}

#[test]
fn test_nearest_open_space() {
    let positions = make_empty_positions();
    let mut space = SpaceAnalysis::new();
    space.update(&positions, 1);
    let open = space.nearest_open_space(m(0.0, 0.0));
    assert!(open.is_some());
    let p = open.unwrap();
    assert!(p.x > 0 || p.y > 0);
}

#[test]
fn test_nearest_open_space_already_open() {
    let space = SpaceAnalysis::new();
    let open = space.nearest_open_space(m(50.0, CY));
    assert!(open.is_some());
    let p = open.unwrap();
    assert_eq!(p, m(55.0, 35.0));
}

#[test]
fn test_path_is_blocked() {
    let mut positions = make_empty_positions();
    for i in 0..7 {
        if i < 4 {
            positions[i] = m(55.0, i as f64 * 10.0 + 5.0);
        }
    }
    let mut space = SpaceAnalysis::new();
    space.update(&positions, 1);
    let blocked = space.path_is_blocked(m(20.0, 25.0), m(80.0, 25.0));
    assert!(blocked || !blocked);
}

#[test]
fn nearest_open_cell_breadth_first() {
    // crowd a block of cells around (5, 3): the 3x3 block is full
    let mut positions = make_empty_positions();
    let mut k = 0;
    for dx in 0..3 {
        for dy in 0..3 {
            if k < 9 {
                positions[k] = m(45.0 + dx as f64 * 10.0, 25.0 + dy as f64 * 10.0);
                k += 1;
            }
        }
    }
    let mut space = SpaceAnalysis::new();
    space.update(&positions, 1);
    // the nearest empty cells lie two king's moves away; north first
    let c = space.nearest_open_cell(5, 3).unwrap();
    let d = (c.0 as i32 - 5).abs().max((c.1 as i32 - 3).abs());
    assert_eq!(d, 2);
    assert!(space.cell(c.0, c.1).is_empty());
    assert_eq!(c, (5, 5));
    // an empty start cell is its own answer
    assert_eq!(space.nearest_open_cell(0, 6), Some((0, 6)));
}

#[test]
fn nearest_open_cell_ties_follow_the_search_order() {
    // the 3x3 block around (5, 3) is full, and so are (5, 5) and then (6, 5):
    // among the cells two moves away the search meets (5, 5), then (6, 5),
    // then (4, 5), all children of (5, 4), north first and clockwise
    let mut positions = make_empty_positions();
    let mut k = 0;
    for dx in 0..3 {
        for dy in 0..3 {
            positions[k] = m(45.0 + dx as f64 * 10.0, 25.0 + dy as f64 * 10.0);
            k += 1;
        }
    }
    positions[9] = m(55.0, 55.0);
    let mut space = SpaceAnalysis::new();
    space.update(&positions, 1);
    assert_eq!(space.nearest_open_cell(5, 3), Some((6, 5)));
    positions[10] = m(65.0, 55.0);
    space.update(&positions, 2);
    assert_eq!(space.nearest_open_cell(5, 3), Some((4, 5)));
}

#[test]
fn no_open_cell_on_a_full_grid() {
    // 22 players cannot fill 77 cells: every answer exists
    let positions = make_empty_positions();
    let mut space = SpaceAnalysis::new();
    space.update(&positions, 1);
    for x in 0..11 {
        for y in 0..7 {
            assert!(space.nearest_open_cell(x, y).is_some());
        }
    }
}

#[test]
fn path_blocked_by_crowded_middle_cell() {
    let mut positions = make_empty_positions();
    // three players in cell (5, 2)
    positions[0] = m(55.0, 25.0);
    positions[1] = m(56.0, 26.0);
    positions[2] = m(57.0, 27.0);
    let mut space = SpaceAnalysis::new();
    space.update(&positions, 1);
    // a straight line along row 2 passes through (5, 2)
    assert!(space.path_is_blocked(m(20.0, 25.0), m(80.0, 25.0)));
    // along row 4 it does not
    assert!(!space.path_is_blocked(m(20.0, 45.0), m(80.0, 45.0)));
    // the crowded ends do not count
    assert!(!space.path_is_blocked(m(55.0, 25.0), m(80.0, 25.0)));
    assert!(!space.path_is_blocked(m(1.0, 1.0), m(1.0, 1.0)));
    // a diagonal through (5, 2): from (3, 0) to (7, 4)
    assert!(space.path_is_blocked(m(35.0, 5.0), m(75.0, 45.0)));
}

#[test]
fn test_space_quality() {
    let mut space = SpaceAnalysis::new();
    // quality in percent: 100 for an empty cell
    assert_eq!(space.space_quality(m(50.0, CY)), 100);
    let positions = make_empty_positions();
    space.update(&positions, 1);
    assert_eq!(space.space_quality(m(0.0, 0.0)), 0);
}

#[test]
fn test_area_quality() {
    let space = SpaceAnalysis::new();
    let (sum, count) = space.area_quality(m(50.0, CY));
    assert_eq!(count, 9);
    assert_eq!(sum, 100 * count);
}

#[test]
fn test_space_quality_for_team_empty() {
    let space = SpaceAnalysis::new();
    assert_eq!(space.space_quality_for_team(m(50.0, CY), true), 100);
    assert_eq!(space.space_quality_for_team(m(50.0, CY), false), 100);
}

#[test]
fn test_space_quality_for_team_opponents_matter_more() {
    let mut positions = make_empty_positions();
    positions[0] = m(55.0, 35.0);
    positions[1] = m(55.0, 35.0);
    positions[11] = m(55.0, 35.0);
    positions[12] = m(55.0, 35.0);
    let mut space = SpaceAnalysis::new();
    space.update(&positions, 1);
    // 1.0 - 2 x 0.08 - 2 x 0.20 = 0.44
    assert_eq!(space.space_quality_for_team(m(55.0, 35.0), true), 44);
    assert_eq!(space.space_quality_for_team(m(55.0, 35.0), false), 44);
}

#[test]
fn test_space_quality_for_team_asymmetric() {
    let mut positions = make_empty_positions();
    positions[0] = m(55.0, 35.0);
    positions[1] = m(55.0, 35.0);
    positions[2] = m(55.0, 35.0);
    let mut space = SpaceAnalysis::new();
    space.update(&positions, 1);
    assert_eq!(space.space_quality_for_team(m(55.0, 35.0), true), 76);
    assert_eq!(space.space_quality_for_team(m(55.0, 35.0), false), 40);
}

#[test]
fn test_passing_lane_quality_adjacent() {
    let space = SpaceAnalysis::new();
    // adjacent cells: no cell between the ends, a clear lane
    let (_, count) = space.passing_lane_quality(m(5.0, 5.0), m(15.0, 5.0), true);
    assert_eq!(count, 0);
}

#[test]
fn test_passing_lane_quality_with_opponents() {
    let mut positions = make_empty_positions();
    positions[11] = m(55.0, 35.0);
    positions[12] = m(55.0, 35.0);
    let mut space = SpaceAnalysis::new();
    space.update(&positions, 1);
    let (sum, count) = space.passing_lane_quality(m(25.0, 35.0), m(85.0, 35.0), true);
    assert!(count > 0);
    assert!(sum < 100 * count, "Lane quality should be reduced: {}/{}", sum, count);
    // cells 3..=7 of row 3 lie between the ends; cell 5 holds two opponents
    assert_eq!(count, 5);
    assert_eq!(sum, 4 * 100 + 60);
}

#[test]
fn test_best_space_direction_for_team() {
    let mut positions = make_empty_positions();
    positions[11] = m(65.0, 35.0);
    positions[12] = m(65.0, 35.0);
    let mut space = SpaceAnalysis::new();
    space.update(&positions, 1);
    let (cx, cy) = SpaceAnalysis::pos_to_cell(m(55.0, 35.0));
    let dir = space.best_space_neighbour_for_team(cx, cy, true);
    assert!(dir.0 <= 0 || dir == (0, 0), "Should not move toward opponents: {:?}", dir);
}

#[test]
fn passing_lane_in_one_cell_is_that_cells_quality() {
    let mut positions = make_empty_positions();
    positions[11] = m(55.0, 35.0);
    let mut space = SpaceAnalysis::new();
    space.update(&positions, 1);
    assert_eq!(space.passing_lane_quality(m(51.0, 31.0), m(58.0, 38.0), true), (80, 1));
}

#[test]
fn best_space_neighbour_leaves_a_cell_full_of_opponents() {
    let mut positions = make_empty_positions();
    positions[11] = m(55.0, 35.0);
    let mut space = SpaceAnalysis::new();
    space.update(&positions, 1);
    // every neighbour is empty and better: the first, north, is taken
    assert_eq!(space.best_space_neighbour_for_team(5, 3, true), (0, 1));
    // for the away team its own player is only a team-mate, quality 92;
    // neighbours are at 100, still better
    assert_eq!(space.best_space_neighbour_for_team(5, 3, false), (0, 1));
}

#[test]
fn area_quality_at_a_corner_counts_four_cells() {
    let positions = make_empty_positions();
    let mut space = SpaceAnalysis::new();
    space.update(&positions, 1);
    // corner cell (0, 0) holds 11 players (quality 0), three empty neighbours
    assert_eq!(space.area_quality(m(0.0, 0.0)), (300, 4));
}

#[test]
fn line_cells_lists_the_walk_with_both_ends() {
    // a straight line along row 3 from column 2 to column 5
    assert_eq!(SpaceAnalysis::line_cells(m(25.0, 35.0), m(55.0, 35.0)), vec![(2, 3), (3, 3), (4, 3), (5, 3)]);
    // a diagonal, walked one step on each axis at a time
    assert_eq!(SpaceAnalysis::line_cells(m(5.0, 5.0), m(25.0, 25.0)), vec![(0, 0), (1, 1), (2, 2)]);
    // backwards and uneven: from (4, 0) to (0, 2)
    let cells = SpaceAnalysis::line_cells(m(45.0, 5.0), m(5.0, 25.0));
    assert_eq!(cells.first(), Some(&(4, 0)));
    assert_eq!(cells.last(), Some(&(0, 2)));
    assert_eq!(cells, vec![(4, 0), (3, 0), (2, 1), (1, 1), (0, 2)]);
    // one cell
    assert_eq!(SpaceAnalysis::line_cells(m(51.0, 31.0), m(58.0, 38.0)), vec![(5, 3)]);
}
