//! Grid of 10 m x 10 m cells over the pitch, counting the players of each team
//! in every cell.
//!
//! The 105 m x 68 m pitch gives 11 x 7 cells; cell `(cx, cy)` covers
//! x from `10 cx` m and y from `10 cy` m (the last row and column also take
//! whatever lies beyond the pitch).
use vstd::prelude::*;
use crate::geometry::Coord10;

verus! {

/// Number of cell columns along the pitch.
pub const GRID_WIDTH: usize = 11;

/// Number of cell rows across the pitch.
pub const GRID_HEIGHT: usize = 7;

/// Players of each team in one cell.
#[derive(Debug, Clone, Copy, PartialEq, Eq, Structural)]
pub struct CellOccupancy {
    pub home_count: u8,
    pub away_count: u8,
}

impl Default for CellOccupancy {
    fn default() -> (r: CellOccupancy)
        ensures
            r.home_count == 0,
            r.away_count == 0,
    {
        CellOccupancy { home_count: 0, away_count: 0 }
    }
}

impl CellOccupancy {
    /// Number of players in the cell, both teams.
    pub open spec fn players(self) -> int {
        self.home_count + self.away_count
    }

    /// Total number of players in the cell.
    pub fn total(&self) -> (r: u8)
        requires
            self.players() <= 255,
        ensures
            r == self.players(),
    {
        self.home_count + self.away_count
    }

    /// Whether nobody stands in the cell.
    pub fn is_empty(&self) -> (r: bool)
        requires
            self.players() <= 255,
        ensures
            r == (self.players() == 0),
    {
        self.total() == 0
    }

    /// Whether three players or more stand in the cell.
    pub fn is_crowded(&self) -> (r: bool)
        requires
            self.players() <= 255,
        ensures
            r == (self.players() >= 3),
    {
        self.total() >= 3
    }

    /// Whether one or two players stand in the cell.
    pub fn is_light(&self) -> (r: bool)
        requires
            self.players() <= 255,
        ensures
            r == (1 <= self.players() <= 2),
    {
        let t = self.total();
        1 <= t && t <= 2
    }
}

/// The cell column of an x (0.1 m): 10 m wide, clamped to the grid.
pub open spec fn cell_col(x: i32) -> int {
    if x < 0 {
        0
    } else if x / 100 > 10 {
        10
    } else {
        x / 100
    }
}

/// The cell row of a y (0.1 m): 10 m high, clamped to the grid.
pub open spec fn cell_row(y: i32) -> int {
    if y < 0 {
        0
    } else if y / 100 > 6 {
        6
    } else {
        y / 100
    }
}

/// Number of the players `lo..hi` whose position lies in cell `(cx, cy)`.
pub open spec fn count_in_cell(pos: Seq<Coord10>, lo: int, hi: int, cx: int, cy: int) -> nat
    decreases hi - lo,
{
    if hi <= lo {
        0
    } else {
        count_in_cell(pos, lo, hi - 1, cx, cy) + if cell_col(pos[hi - 1].x) == cx && cell_row(
            pos[hi - 1].y,
        ) == cy {
            1nat
        } else {
            0nat
        }
    }
}

/// The eight neighbour offsets in the order they are looked at:
/// N, NE, E, SE, S, SW, W, NW.
pub open spec fn dir(k: int) -> (int, int) {
    if k == 0 {
        (0, 1)
    } else if k == 1 {
        (1, 1)
    } else if k == 2 {
        (1, 0)
    } else if k == 3 {
        (1, -1)
    } else if k == 4 {
        (0, -1)
    } else if k == 5 {
        (-1, -1)
    } else if k == 6 {
        (-1, 0)
    } else {
        (-1, 1)
    }
}

/// Whether cell `(x, y)` is on the grid.
pub open spec fn on_grid(x: int, y: int) -> bool {
    0 <= x < 11 && 0 <= y < 7
}

/// Counts of players per cell, refreshed once per tick.
#[derive(Debug, Clone)]
pub struct SpaceAnalysis {
    cells: [[CellOccupancy; 7]; 11],
    last_update_tick: u32,
}

impl SpaceAnalysis {
    /// The occupancy of cell `(x, y)`.
    pub closed spec fn cell_spec(self, x: int, y: int) -> CellOccupancy {
        self.cells@[x]@[y]
    }

    /// The tick of the last update.
    pub closed spec fn tick(self) -> u32 {
        self.last_update_tick
    }

    /// Every cell holds at most the 22 players.
    pub open spec fn wf(self) -> bool {
        forall|x: int, y: int| on_grid(x, y) ==> (#[trigger] self.cell_spec(x, y)).players() <= 22
    }

    /// Number of players in cell `(x, y)`.
    pub open spec fn occupancy(self, x: int, y: int) -> int {
        self.cell_spec(x, y).players()
    }

    /// An empty grid, never updated.
    pub fn new() -> (r: SpaceAnalysis)
        ensures
            r.wf(),
            r.tick() == 0,
            forall|x: int, y: int| on_grid(x, y) ==> #[trigger] r.cell_spec(x, y) == (CellOccupancy {
                home_count: 0,
                away_count: 0,
            }),
    {
        SpaceAnalysis {
            cells: [[CellOccupancy { home_count: 0, away_count: 0 }; 7]; 11],
            last_update_tick: 0,
        }
    }

    /// The cell holding a position, clamped to the grid.
    pub fn pos_to_cell(pos: Coord10) -> (r: (usize, usize))
        ensures
            r.0 == cell_col(pos.x),
            r.1 == cell_row(pos.y),
            r.0 < 11,
            r.1 < 7,
    {
        let cx: usize = if pos.x < 0 {
            0
        } else if pos.x / 100 > 10 {
            10
        } else {
            (pos.x / 100) as usize
        };
        let cy: usize = if pos.y < 0 {
            0
        } else if pos.y / 100 > 6 {
            6
        } else {
            (pos.y / 100) as usize
        };
        (cx, cy)
    }

    /// Counts the players of each team in every cell from their positions
    /// (players 0-10 home, 11-21 away), unless the grid was already updated
    /// at this tick (tick 0 always updates).
    pub fn update(&mut self, positions: &[Coord10; 22], current_tick: u32)
        requires
            old(self).wf(),
        ensures
            final(self).wf(),
            old(self).tick() == current_tick && current_tick > 0 ==> *final(self) == *old(self),
            !(old(self).tick() == current_tick && current_tick > 0) ==> {
                &&& final(self).tick() == current_tick
                &&& forall|x: int, y: int|
                    on_grid(x, y) ==> {
                        &&& (#[trigger] final(self).cell_spec(x, y)).home_count == count_in_cell(
                            positions@,
                            0,
                            11,
                            x,
                            y,
                        )
                        &&& final(self).cell_spec(x, y).away_count == count_in_cell(
                            positions@,
                            11,
                            22,
                            x,
                            y,
                        )
                    }
            },
    {
        if self.last_update_tick == current_tick && current_tick > 0 {
            return;
        }
        self.cells = [[CellOccupancy { home_count: 0, away_count: 0 }; 7]; 11];
        let ghost pos = positions@;
        for idx in 0..22usize
            invariant
                pos == positions@,
                forall|x: int, y: int|
                    on_grid(x, y) ==> {
                        &&& (#[trigger] self.cell_spec(x, y)).home_count == count_in_cell(
                            pos,
                            0,
                            if idx < 11 { idx as int } else { 11 },
                            x,
                            y,
                        )
                        &&& self.cell_spec(x, y).away_count == count_in_cell(
                            pos,
                            11,
                            if idx < 11 { 11 } else { idx as int },
                            x,
                            y,
                        )
                        &&& self.cell_spec(x, y).home_count <= 11
                        &&& self.cell_spec(x, y).away_count <= 11
                    },
        {
            let (cx, cy) = Self::pos_to_cell(positions[idx]);
            let ghost snap = *self;
            let ghost before = self.cells@;
            proof {
                lemma_count_bound(pos, 0, if idx < 11 { idx as int } else { 11 }, cx as int, cy as int);
                lemma_count_bound(pos, 11, if idx < 11 { 11 } else { idx as int }, cx as int, cy as int);
            }
            if idx < 11 {
                let c = self.cells[cx][cy].home_count;
                self.cells[cx][cy].home_count = c.saturating_add(1);
            } else {
                let c = self.cells[cx][cy].away_count;
                self.cells[cx][cy].away_count = c.saturating_add(1);
            }
            proof {
                let lo_h = if idx < 11 { idx as int } else { 11 };
                let hi_a = if idx < 11 { 11 } else { idx as int };
                let lo_h2 = if idx + 1 < 11 { (idx + 1) as int } else { 11 };
                let hi_a2 = if idx + 1 < 11 { 11 } else { (idx + 1) as int };
                assert(cell_col(pos[idx as int].x) == cx && cell_row(pos[idx as int].y) == cy);
                assert forall|x: int, y: int| on_grid(x, y) implies {
                    &&& (#[trigger] self.cell_spec(x, y)).home_count == count_in_cell(pos, 0, lo_h2, x, y)
                    &&& self.cell_spec(x, y).away_count == count_in_cell(pos, 11, hi_a2, x, y)
                    &&& self.cell_spec(x, y).home_count <= 11
                    &&& self.cell_spec(x, y).away_count <= 11
                } by {
                    let old_c = snap.cell_spec(x, y);
                    assert(old_c == before[x]@[y]);
                    assert(old_c.home_count == count_in_cell(pos, 0, lo_h, x, y));
                    assert(old_c.away_count == count_in_cell(pos, 11, hi_a, x, y));
                    lemma_count_bound(pos, 0, lo_h2, x, y);
                    lemma_count_bound(pos, 11, hi_a2, x, y);
                    if idx < 11 {
                        assert(count_in_cell(pos, 11, hi_a2, x, y) == count_in_cell(pos, 11, hi_a, x, y));
                        assert(count_in_cell(pos, 0, lo_h2, x, y) == count_in_cell(pos, 0, lo_h, x, y) + if x
                            == cx && y == cy {
                            1nat
                        } else {
                            0nat
                        });
                    } else {
                        assert(count_in_cell(pos, 0, lo_h2, x, y) == count_in_cell(pos, 0, lo_h, x, y));
                        assert(count_in_cell(pos, 11, hi_a2, x, y) == count_in_cell(pos, 11, hi_a, x, y) + if x
                            == cx && y == cy {
                            1nat
                        } else {
                            0nat
                        });
                    }
                    if x != cx || y != cy {
                        assert(self.cells@[x]@[y] == before[x]@[y]);
                    }
                }
            }
        }
        let ghost done = *self;
        self.last_update_tick = current_tick;
        proof {
            assert forall|x: int, y: int| on_grid(x, y) implies (#[trigger] self.cell_spec(x, y)).players() <= 22 by {
                assert(self.cell_spec(x, y) == done.cell_spec(x, y));
                assert(done.cell_spec(x, y).home_count <= 11);
            }
            assert forall|x: int, y: int| on_grid(x, y) implies {
                &&& (#[trigger] self.cell_spec(x, y)).home_count == count_in_cell(positions@, 0, 11, x, y)
                &&& self.cell_spec(x, y).away_count == count_in_cell(positions@, 11, 22, x, y)
            } by {
                assert(self.cell_spec(x, y) == done.cell_spec(x, y));
                assert(done.cell_spec(x, y).home_count == count_in_cell(pos, 0, 11, x, y));
            }
        }
    }

    /// The occupancy of cell `(cx, cy)`.
    pub fn cell(&self, cx: usize, cy: usize) -> (r: CellOccupancy)
        requires
            cx < 11,
            cy < 7,
        ensures
            r == self.cell_spec(cx as int, cy as int),
    {
        self.cells[cx][cy]
    }

    /// The occupancy of the cell holding a position.
    pub fn cell_at(&self, pos: Coord10) -> (r: &CellOccupancy)
        ensures
            *r == self.cell_spec(cell_col(pos.x), cell_row(pos.y)),
    {
        let (cx, cy) = Self::pos_to_cell(pos);
        &self.cells[cx][cy]
    }

    /// Number of players in the cell holding a position.
    pub fn occupancy_at(&self, pos: Coord10) -> (r: u8)
        requires
            self.wf(),
        ensures
            r == self.occupancy(cell_col(pos.x), cell_row(pos.y)),
    {
        assert(self.cell_spec(cell_col(pos.x), cell_row(pos.y)).players() <= 22);
        self.cell_at(pos).total()
    }

    /// Whether three players or more stand in the cell holding a position.
    pub fn is_crowded(&self, pos: Coord10) -> (r: bool)
        requires
            self.wf(),
        ensures
            r == (self.occupancy(cell_col(pos.x), cell_row(pos.y)) >= 3),
    {
        assert(self.cell_spec(cell_col(pos.x), cell_row(pos.y)).players() <= 22);
        self.cell_at(pos).is_crowded()
    }

    /// Whether nobody stands in the cell holding a position.
    pub fn is_open(&self, pos: Coord10) -> (r: bool)
        requires
            self.wf(),
        ensures
            r == (self.occupancy(cell_col(pos.x), cell_row(pos.y)) == 0),
    {
        assert(self.cell_spec(cell_col(pos.x), cell_row(pos.y)).players() <= 22);
        self.cell_at(pos).is_empty()
    }

    /// Number of players in the cell holding a position.
    pub fn zone_player_count(&self, pos: Coord10) -> (r: u32)
        requires
            self.wf(),
        ensures
            r == self.occupancy(cell_col(pos.x), cell_row(pos.y)),
    {
        let cell = self.cell_at(pos);
        assert(self.cell_spec(cell_col(pos.x), cell_row(pos.y)).players() <= 22);
        (cell.home_count + cell.away_count) as u32
    }

    /// The cell holding a position.
    pub fn cell_indices(&self, pos: Coord10) -> (r: (usize, usize))
        ensures
            r == (cell_col(pos.x) as usize, cell_row(pos.y) as usize),
    {
        Self::pos_to_cell(pos)
    }

    /// Whether the grid was last updated at another tick.
    pub fn is_stale(&self, current_tick: u32) -> (r: bool)
        ensures
            r == (self.tick() != current_tick),
    {
        self.last_update_tick != current_tick
    }

    /// The tick of the last update.
    pub fn last_update_tick(&self) -> (r: u32)
        ensures
            r == self.tick(),
    {
        self.last_update_tick
    }

    /// The empty cells among the first `k` cells, taken column by column
    /// (cell `j` being `(j / 7, j % 7)`).
    pub open spec fn empty_upto(self, k: int) -> Seq<(usize, usize)>
        decreases k,
    {
        if k <= 0 {
            Seq::empty()
        } else {
            let rest = self.empty_upto(k - 1);
            if self.occupancy((k - 1) / 7, (k - 1) % 7) == 0 {
                rest.push((((k - 1) / 7) as usize, ((k - 1) % 7) as usize))
            } else {
                rest
            }
        }
    }

    /// Number of crowded cells (three players or more) among the first `k`
    /// cells, taken column by column.
    pub open spec fn crowded_upto(self, k: int) -> nat
        decreases k,
    {
        if k <= 0 {
            0
        } else {
            self.crowded_upto(k - 1) + if self.occupancy((k - 1) / 7, (k - 1) % 7) >= 3 {
                1nat
            } else {
                0nat
            }
        }
    }

    /// The cells where nobody stands, column by column, each column from y = 0 up.
    pub fn empty_cells(&self) -> (r: Vec<(usize, usize)>)
        requires
            self.wf(),
        ensures
            r@ == self.empty_upto(77),
    {
        let mut result: Vec<(usize, usize)> = Vec::new();
        for x in 0..11usize
            invariant
                self.wf(),
                result@ == self.empty_upto(7 * x),
        {
            for y in 0..7usize
                invariant
                    self.wf(),
                    x < 11,
                    result@ == self.empty_upto(7 * x + y),
            {
                proof {
                    assert((7 * x + y) / 7 == x) by (nonlinear_arith)
                        requires y < 7;
                    assert((7 * x + y) % 7 == y) by (nonlinear_arith)
                        requires y < 7;
                }
                assert(self.cell_spec(x as int, y as int).players() <= 22);
                if self.cells[x][y].is_empty() {
                    result.push((x, y));
                }
            }
        }
        result
    }

    /// Number of cells where nobody stands.
    pub fn empty_cell_count(&self) -> (r: usize)
        requires
            self.wf(),
        ensures
            r == self.empty_upto(77).len(),
    {
        let mut count: usize = 0;
        for x in 0..11usize
            invariant
                self.wf(),
                count == self.empty_upto(7 * x).len(),
                count <= 7 * x,
        {
            for y in 0..7usize
                invariant
                    self.wf(),
                    x < 11,
                    count == self.empty_upto(7 * x + y).len(),
                    count <= 7 * x + y,
            {
                proof {
                    assert((7 * x + y) / 7 == x) by (nonlinear_arith)
                        requires y < 7;
                    assert((7 * x + y) % 7 == y) by (nonlinear_arith)
                        requires y < 7;
                }
                assert(self.cell_spec(x as int, y as int).players() <= 22);
                if self.cells[x][y].is_empty() {
                    count += 1;
                }
            }
        }
        count
    }

    /// Number of cells where three players or more stand.
    pub fn crowded_cell_count(&self) -> (r: usize)
        requires
            self.wf(),
        ensures
            r == self.crowded_upto(77),
    {
        let mut count: usize = 0;
        for x in 0..11usize
            invariant
                self.wf(),
                count == self.crowded_upto(7 * x),
                count <= 7 * x,
        {
            for y in 0..7usize
                invariant
                    self.wf(),
                    x < 11,
                    count == self.crowded_upto(7 * x + y),
                    count <= 7 * x + y,
            {
                proof {
                    assert((7 * x + y) / 7 == x) by (nonlinear_arith)
                        requires y < 7;
                    assert((7 * x + y) % 7 == y) by (nonlinear_arith)
                        requires y < 7;
                }
                assert(self.cell_spec(x as int, y as int).players() <= 22);
                if self.cells[x][y].is_crowded() {
                    count += 1;
                }
            }
        }
        count
    }

    /// Opponents of a team in every cell: the away counts for the home team,
    /// the home counts for the away team.
    pub fn pressure_map(&self, is_home: bool) -> (r: [[u8; 7]; 11])
        ensures
            forall|x: int, y: int|
                on_grid(x, y) ==> #[trigger] r@[x]@[y] == if is_home {
                    self.cell_spec(x, y).away_count
                } else {
                    self.cell_spec(x, y).home_count
                },
    {
        let mut result = [[0u8; 7]; 11];
        for x in 0..11usize
            invariant
                forall|xx: int, y: int|
                    0 <= xx < x && 0 <= y < 7 ==> #[trigger] result@[xx]@[y] == if is_home {
                        self.cell_spec(xx, y).away_count
                    } else {
                        self.cell_spec(xx, y).home_count
                    },
        {
            for y in 0..7usize
                invariant
                    x < 11,
                    forall|xx: int, yy: int|
                        0 <= xx < x && 0 <= yy < 7 ==> #[trigger] result@[xx]@[yy] == if is_home {
                            self.cell_spec(xx, yy).away_count
                        } else {
                            self.cell_spec(xx, yy).home_count
                        },
                    forall|yy: int|
                        0 <= yy < y ==> #[trigger] result@[x as int]@[yy] == if is_home {
                            self.cell_spec(x as int, yy).away_count
                        } else {
                            self.cell_spec(x as int, yy).home_count
                        },
            {
                let v = if is_home {
                    self.cells[x][y].away_count
                } else {
                    self.cells[x][y].home_count
                };
                result[x][y] = v;
            }
        }
        result
    }

    /// The neighbour of cell `(cx, cy)` with the fewest players, as an offset
    /// (`dx`, `dy`) in -1..=1, if it holds fewer players than the cell itself;
    /// `(0, 0)` otherwise. Among equally occupied neighbours the first in the
    /// order N, NE, E, SE, S, SW, W, NW is taken.
    pub fn least_crowded_neighbour(&self, cx: usize, cy: usize) -> (r: (i32, i32))
        requires
            self.wf(),
            cx < 11,
            cy < 7,
        ensures
            r == (0i32, 0i32) <==> forall|k: int|
                0 <= k < 8 && on_grid(cx + dir(k).0, cy + dir(k).1) ==> #[trigger] self.occupancy(
                    cx + dir(k).0,
                    cy + dir(k).1,
                ) >= self.occupancy(cx as int, cy as int),
            r != (0i32, 0i32) ==> exists|k: int|
                0 <= k < 8 && r == (dir(k).0 as i32, dir(k).1 as i32) && self.is_least_neighbour(
                    cx as int,
                    cy as int,
                    k,
                ),
    {
        let mut best_dir: (i32, i32) = (0, 0);
        let mut best_k: usize = 8;
        assert(self.cell_spec(cx as int, cy as int).players() <= 22);
        let mut best_score: u8 = self.cells[cx][cy].total();
        let ghost cur = self.occupancy(cx as int, cy as int);
        for k in 0..8usize
            invariant
                self.wf(),
                cx < 11,
                cy < 7,
                cur == self.occupancy(cx as int, cy as int),
                best_k <= 8,
                best_score <= cur,
                best_k == 8 ==> best_dir == (0i32, 0i32) && best_score == cur,
                best_k < 8 ==> best_k < k,
                best_k < 8 ==> best_dir == (dir(best_k as int).0 as i32, dir(best_k as int).1 as i32),
                best_k < 8 ==> on_grid(cx + dir(best_k as int).0, cy + dir(best_k as int).1),
                best_k < 8 ==> best_score == self.occupancy(cx + dir(best_k as int).0, cy + dir(best_k as int).1),
                best_k < 8 ==> best_score < cur,
                forall|j: int|
                    0 <= j < k && on_grid(cx + dir(j).0, cy + dir(j).1) ==> #[trigger] self.occupancy(
                        cx + dir(j).0,
                        cy + dir(j).1,
                    ) >= best_score,
                best_k < 8 ==> forall|j: int|
                    0 <= j < best_k && on_grid(cx + dir(j).0, cy + dir(j).1) ==> #[trigger] self.occupancy(
                        cx + dir(j).0,
                        cy + dir(j).1,
                    ) > best_score,
        {
            let (dx, dy) = direction(k);
            let nx = cx as i32 + dx;
            let ny = cy as i32 + dy;
            let ghost kk = k as int;
            assert(nx == cx + dir(kk).0 && ny == cy + dir(kk).1);
            if !(nx < 0 || nx >= 11 || ny < 0 || ny >= 7) {
                assert(self.cell_spec(nx as int, ny as int).players() <= 22);
                let occupancy = self.cells[nx as usize][ny as usize].total();
                assert(occupancy == self.occupancy(cx + dir(kk).0, cy + dir(kk).1));
                if occupancy < best_score {
                    let ghost old_best = best_score;
                    best_score = occupancy;
                    best_dir = (dx, dy);
                    best_k = k;
                    proof {
                        assert forall|j: int|
                            0 <= j < k + 1 && on_grid(cx + dir(j).0, cy + dir(j).1) implies #[trigger] self.occupancy(
                            cx + dir(j).0,
                            cy + dir(j).1,
                        ) >= best_score by {
                            if j < k {
                                assert(self.occupancy(cx + dir(j).0, cy + dir(j).1) >= old_best);
                            }
                        }
                        assert forall|j: int|
                            0 <= j < best_k && on_grid(cx + dir(j).0, cy + dir(j).1) implies #[trigger] self.occupancy(
                            cx + dir(j).0,
                            cy + dir(j).1,
                        ) > best_score by {
                            assert(self.occupancy(cx + dir(j).0, cy + dir(j).1) >= old_best);
                        }
                    }
                }
            }
        }
        proof {
            if best_k < 8 {
                let bk = best_k as int;
                assert(dir(bk).0 != 0 || dir(bk).1 != 0);
                assert(self.is_least_neighbour(cx as int, cy as int, bk));
                assert(!(self.occupancy(cx + dir(bk).0, cy + dir(bk).1) >= cur));
            }
        }
        best_dir
    }

    /// Neighbour `k` of cell `(cx, cy)` is on the grid, holds fewer players than
    /// the cell, no neighbour holds fewer, and every earlier neighbour holds more.
    pub open spec fn is_least_neighbour(self, cx: int, cy: int, k: int) -> bool {
        &&& on_grid(cx + dir(k).0, cy + dir(k).1)
        &&& self.occupancy(cx + dir(k).0, cy + dir(k).1) < self.occupancy(cx, cy)
        &&& forall|j: int|
            0 <= j < 8 && on_grid(cx + dir(j).0, cy + dir(j).1) ==> #[trigger] self.occupancy(
                cx + dir(j).0,
                cy + dir(j).1,
            ) >= self.occupancy(cx + dir(k).0, cy + dir(k).1)
        &&& forall|j: int|
            0 <= j < k && on_grid(cx + dir(j).0, cy + dir(j).1) ==> #[trigger] self.occupancy(
                cx + dir(j).0,
                cy + dir(j).1,
            ) > self.occupancy(cx + dir(k).0, cy + dir(k).1)
    }
}

/// Neighbour offset `k` in the order N, NE, E, SE, S, SW, W, NW.
fn direction(k: usize) -> (r: (i32, i32))
    requires
        k < 8,
    ensures
        r == (dir(k as int).0 as i32, dir(k as int).1 as i32),
{
    match k {
        0 => (0, 1),
        1 => (1, 1),
        2 => (1, 0),
        3 => (1, -1),
        4 => (0, -1),
        5 => (-1, -1),
        6 => (-1, 0),
        _ => (-1, 1),
    }
}

proof fn lemma_count_bound(pos: Seq<Coord10>, lo: int, hi: int, cx: int, cy: int)
    requires
        lo <= hi,
    ensures
        count_in_cell(pos, lo, hi, cx, cy) <= hi - lo,
    decreases hi - lo,
{
    if hi > lo {
        lemma_count_bound(pos, lo, hi - 1, cx, cy);
    }
}

/// Distance between cells in king's moves (the larger of the column and row
/// differences).
pub open spec fn cheb(ax: int, ay: int, bx: int, by: int) -> int {
    let dx = if ax >= bx { ax - bx } else { bx - ax };
    let dy = if ay >= by { ay - by } else { by - ay };
    if dx >= dy { dx } else { dy }
}

/// Distance in king's moves from cell `(sx, sy)` to a cell of the search.
pub open spec fn qcheb(sx: int, sy: int, c: (usize, usize)) -> int {
    cheb(sx, sy, c.0 as int, c.1 as int)
}

/// The neighbour offset `(dx, dy)` (not both zero, each in -1..=1) as its
/// position in the order of `dir`.
pub open spec fn dir_index(dx: int, dy: int) -> int {
    if dx == 0 && dy == 1 {
        0
    } else if dx == 1 && dy == 1 {
        1
    } else if dx == 1 && dy == 0 {
        2
    } else if dx == 1 && dy == -1 {
        3
    } else if dx == 0 && dy == -1 {
        4
    } else if dx == -1 && dy == -1 {
        5
    } else if dx == -1 && dy == 0 {
        6
    } else {
        7
    }
}

/// One step from `a` towards `b` on one axis.
pub open spec fn toward(a: int, b: int) -> int {
    if a < b { a + 1 } else if a > b { a - 1 } else { a }
}

/// Number of visited cells among the first `k` cells, cell `j` being
/// `(j / 7, j % 7)`.
pub open spec fn visited_count(v: Seq<[bool; 7]>, k: int) -> nat
    decreases k,
{
    if k <= 0 {
        0
    } else {
        visited_count(v, k - 1) + if v[(k - 1) / 7]@[(k - 1) % 7] {
            1nat
        } else {
            0nat
        }
    }
}

proof fn lemma_visited_count_bound(v: Seq<[bool; 7]>, k: int)
    requires
        0 <= k,
    ensures
        visited_count(v, k) <= k,
    decreases k,
{
    if k > 0 {
        lemma_visited_count_bound(v, k - 1);
    }
}

/// Marking one unvisited cell adds one to the count of the cells that hold it.
proof fn lemma_visited_count_mark(v: Seq<[bool; 7]>, w: Seq<[bool; 7]>, x: int, y: int, k: int)
    requires
        0 <= x < 11,
        0 <= y < 7,
        0 <= k <= 77,
        v.len() == 11,
        w.len() == 11,
        !v[x]@[y],
        w[x]@[y],
        forall|a: int, b: int| 0 <= a < 11 && 0 <= b < 7 && !(a == x && b == y) ==> #[trigger] w[a]@[b] == v[a]@[b],
    ensures
        visited_count(w, k) == visited_count(v, k) + if x * 7 + y < k {
            1nat
        } else {
            0nat
        },
    decreases k,
{
    if k > 0 {
        lemma_visited_count_mark(v, w, x, y, k - 1);
        let a = (k - 1) / 7;
        let b = (k - 1) % 7;
        assert(0 <= a < 11 && 0 <= b < 7);
        assert(a * 7 + b == k - 1);
        if a == x && b == y {
            assert(x * 7 + y == k - 1);
        } else {
            assert(w[a]@[b] == v[a]@[b]);
            assert(x * 7 + y != k - 1) by {
                if x * 7 + y == k - 1 {
                    assert((x * 7 + y) / 7 == x && (x * 7 + y) % 7 == y);
                }
            }
        }
    }
}

/// Breadth-first reach: when the search has expanded every queued cell
/// nearer than `d`, every cell within `d` king's moves of the start is queued.
proof fn lemma_reach(q: Seq<(usize, usize)>, head: int, sx: int, sy: int, d: int, cx: int, cy: int)
    requires
        q.len() > 0,
        q[0] == (sx as usize, sy as usize),
        on_grid(sx, sy),
        0 <= head <= q.len(),
        forall|i: int| 0 <= i < q.len() && qcheb(sx, sy, #[trigger] q[i]) < d ==> i < head,
        forall|i: int, k: int|
            #![trigger q[i], dir(k)]
            0 <= i < head && 0 <= k < 8 && on_grid(q[i].0 + dir(k).0, q[i].1 + dir(k).1) ==> q.contains(
                ((q[i].0 + dir(k).0) as usize, (q[i].1 + dir(k).1) as usize),
            ),
        on_grid(cx, cy),
        cheb(sx, sy, cx, cy) <= d,
    ensures
        q.contains((cx as usize, cy as usize)),
    decreases cheb(sx, sy, cx, cy),
{
    if cx == sx && cy == sy {
        assert(q[0] == (cx as usize, cy as usize));
    } else {
        let px = toward(cx, sx);
        let py = toward(cy, sy);
        assert(cheb(sx, sy, px, py) == cheb(sx, sy, cx, cy) - 1);
        lemma_reach(q, head, sx, sy, d, px, py);
        let ip = choose|i: int| 0 <= i < q.len() && q[i] == (px as usize, py as usize);
        assert(q[ip] == (px as usize, py as usize));
        assert(qcheb(sx, sy, q[ip]) < d);
        let k = dir_index(cx - px, cy - py);
        assert(0 <= k < 8);
        assert(px + dir(k).0 == cx && py + dir(k).1 == cy);
        assert(q[ip].0 + dir(k).0 == cx && q[ip].1 + dir(k).1 == cy);
    }
}

/// The breadth-first search from cell `(sx, sy)` after `n` steps, as the
/// cells met so far in the order met, the position of the cell being
/// expanded, and the next neighbour direction to look at. Each step looks at
/// one neighbour (in the order N, NE, E, SE, S, SW, W, NW of `dir`) of the
/// cell being expanded and appends it if it is on the grid and not met yet;
/// after the eighth direction the next cell is expanded.
pub open spec fn bfs_state(sx: int, sy: int, n: nat) -> (Seq<(usize, usize)>, nat, nat)
    decreases n,
{
    if n == 0 {
        (seq![(sx as usize, sy as usize)], 0, 0)
    } else {
        let (q, h, k) = bfs_state(sx, sy, (n - 1) as nat);
        if h >= q.len() {
            (q, h, k)
        } else {
            let nx = q[h as int].0 + dir(k as int).0;
            let ny = q[h as int].1 + dir(k as int).1;
            let q2 = if on_grid(nx, ny) && !q.contains((nx as usize, ny as usize)) {
                q.push((nx as usize, ny as usize))
            } else {
                q
            };
            if k >= 7 {
                (q2, h + 1, 0)
            } else {
                (q2, h, k + 1)
            }
        }
    }
}

/// Every cell of the grid in the order a breadth-first search from cell
/// `(sx, sy)` meets it, looking at neighbours in the order N, NE, E, SE, S,
/// SW, W, NW (77 cells, 8 directions each).
pub open spec fn bfs_order(sx: int, sy: int) -> Seq<(usize, usize)> {
    bfs_state(sx, sy, 616).0
}

proof fn lemma_bfs_step(sx: int, sy: int, n: nat, q: Seq<(usize, usize)>, h: nat, k: nat)
    requires
        bfs_state(sx, sy, n) == (q, h, k),
        h < q.len(),
        k < 8,
    ensures
        ({
            let nx = q[h as int].0 + dir(k as int).0;
            let ny = q[h as int].1 + dir(k as int).1;
            &&& on_grid(nx, ny) && !q.contains((nx as usize, ny as usize)) ==> bfs_state(sx, sy, n + 1).0
                == q.push((nx as usize, ny as usize))
            &&& !(on_grid(nx, ny) && !q.contains((nx as usize, ny as usize))) ==> bfs_state(sx, sy, n + 1).0 == q
        }),
        k == 7 ==> bfs_state(sx, sy, n + 1).1 == h + 1 && bfs_state(sx, sy, n + 1).2 == 0,
        k < 7 ==> bfs_state(sx, sy, n + 1).1 == h && bfs_state(sx, sy, n + 1).2 == k + 1,
{
}

proof fn lemma_bfs_prefix(sx: int, sy: int, n: nat, m: nat)
    requires
        n <= m,
    ensures
        bfs_state(sx, sy, n).0.len() <= bfs_state(sx, sy, m).0.len(),
        bfs_state(sx, sy, m).0.subrange(0, bfs_state(sx, sy, n).0.len() as int) == bfs_state(sx, sy, n).0,
    decreases m,
{
    if n < m {
        lemma_bfs_prefix(sx, sy, n, (m - 1) as nat);
        let a = bfs_state(sx, sy, n).0;
        let b = bfs_state(sx, sy, (m - 1) as nat).0;
        let c = bfs_state(sx, sy, m).0;
        assert(c.subrange(0, b.len() as int) =~= b);
        assert(c.subrange(0, a.len() as int) =~= b.subrange(0, a.len() as int));
    } else {
        assert(bfs_state(sx, sy, m).0.subrange(0, bfs_state(sx, sy, n).0.len() as int) =~= bfs_state(sx, sy, n).0);
    }
}

impl SpaceAnalysis {
    /// Position `i` of `order` holds an empty cell, and every cell before it
    /// holds a player.
    pub open spec fn is_first_open(self, order: Seq<(usize, usize)>, i: int) -> bool {
        &&& 0 <= i < order.len()
        &&& self.occupancy(order[i].0 as int, order[i].1 as int) == 0
        &&& forall|j: int| 0 <= j < i ==> self.occupancy((#[trigger] order[j]).0 as int, order[j].1 as int) != 0
    }

    /// Cell `(x, y)` is empty and no empty cell lies fewer king's moves from
    /// cell `(sx, sy)`.
    pub open spec fn is_nearest_open(self, sx: int, sy: int, x: int, y: int) -> bool {
        &&& on_grid(x, y)
        &&& self.occupancy(x, y) == 0
        &&& forall|u: int, v: int|
            on_grid(u, v) && #[trigger] self.occupancy(u, v) == 0 ==> cheb(sx, sy, x, y) <= cheb(sx, sy, u, v)
    }

    /// An empty cell as few king's moves as possible from cell `(sx, sy)`: the
    /// cell itself if empty, otherwise the first empty cell that a breadth-first
    /// search meets, looking at neighbours in the order N, NE, E, SE, S, SW, W,
    /// NW; `None` when every cell holds a player.
    #[verifier::rlimit(60)]
    #[verifier::spinoff_prover]
    pub fn nearest_open_cell(&self, sx: usize, sy: usize) -> (r: Option<(usize, usize)>)
        requires
            self.wf(),
            sx < 11,
            sy < 7,
        ensures
            r matches Some(c) ==> self.is_nearest_open(sx as int, sy as int, c.0 as int, c.1 as int),
            r matches Some(c) ==> exists|i: int|
                #[trigger] self.is_first_open(bfs_order(sx as int, sy as int), i) && bfs_order(sx as int, sy as int)[i]
                    == c,
            r is None ==> forall|u: int, v: int| on_grid(u, v) ==> #[trigger] self.occupancy(u, v) != 0,
    {
        assert(self.cell_spec(sx as int, sy as int).players() <= 22);
        if self.cells[sx][sy].is_empty() {
            proof {
                lemma_bfs_prefix(sx as int, sy as int, 0, 616);
                assert(bfs_state(sx as int, sy as int, 0).0 == seq![(sx, sy)]);
                assert(bfs_order(sx as int, sy as int).subrange(0, 1)[0] == bfs_order(sx as int, sy as int)[0]);
                assert(bfs_order(sx as int, sy as int)[0] == (sx, sy));
                assert(self.is_first_open(bfs_order(sx as int, sy as int), 0));
            }
            return Some((sx, sy));
        }
        let mut visited = [[false; 7]; 11];
        let mut queue: Vec<(usize, usize)> = Vec::new();
        proof {
            assert(visited_count(visited@, 77) == 0) by {
                lemma_visited_none(visited@, 77);
            }
        }
        let ghost before = visited@;
        queue.push((sx, sy));
        visited[sx][sy] = true;
        proof {
            lemma_visited_count_mark(before, visited@, sx as int, sy as int, 77);
            assert forall|x: int, y: int| on_grid(x, y) implies (visited@[x]@[y] <==> queue@.contains(
                (x as usize, y as usize),
            )) by {
                if x == sx && y == sy {
                    assert(queue@[0] == (x as usize, y as usize));
                } else {
                    if queue@.contains((x as usize, y as usize)) {
                        let i = choose|i: int| 0 <= i < queue@.len() && queue@[i] == (x as usize, y as usize);
                        assert(i == 0);
                    }
                }
            }
        }
        let mut head: usize = 0;
        proof {
            assert(queue@ =~= seq![(sx, sy)]);
            assert(bfs_state(sx as int, sy as int, 0) == (queue@, 0nat, 0nat));
        }
        while head < queue.len()
            invariant
                self.wf(),
                sx < 11,
                sy < 7,
                0 < queue@.len(),
                bfs_state(sx as int, sy as int, (head * 8) as nat) == (queue@, head as nat, 0nat),
                head <= queue@.len(),
                queue@[0] == (sx, sy),
                queue@.len() == visited_count(visited@, 77),
                forall|i: int| 0 <= i < queue@.len() ==> on_grid(#[trigger] queue@[i].0 as int, queue@[i].1 as int),
                forall|i: int|
                    0 <= i < queue@.len() ==> self.occupancy(#[trigger] queue@[i].0 as int, queue@[i].1 as int)
                        != 0,
                forall|x: int, y: int|
                    on_grid(x, y) ==> (#[trigger] visited@[x]@[y] <==> queue@.contains((x as usize, y as usize))),
                forall|i: int, j: int|
                    0 <= i <= j < queue@.len() ==> qcheb(sx as int, sy as int, #[trigger] queue@[i]) <= qcheb(
                        sx as int,
                        sy as int,
                        #[trigger] queue@[j],
                    ),
                head < queue@.len() ==> qcheb(sx as int, sy as int, queue@[queue@.len() - 1]) <= qcheb(
                    sx as int,
                    sy as int,
                    queue@[head as int],
                ) + 1,
                forall|i: int, k: int|
                    #![trigger queue@[i], dir(k)]
                    0 <= i < head && 0 <= k < 8 && on_grid(queue@[i].0 + dir(k).0, queue@[i].1 + dir(k).1)
                        ==> queue@.contains(((queue@[i].0 + dir(k).0) as usize, (queue@[i].1 + dir(k).1) as usize)),
            decreases 77 - head,
        {
            proof {
                lemma_visited_count_bound(visited@, 77);
            }
            let (cx, cy) = queue[head];
            let ghost d = qcheb(sx as int, sy as int, queue@[head as int]);
            let ghost q0 = queue@;
            proof {
                assert forall|x: int, y: int| on_grid(x, y) && cheb(sx as int, sy as int, x, y) <= d implies queue@.contains(
                    (x as usize, y as usize),
                ) by {
                    lemma_reach(queue@, head as int, sx as int, sy as int, d, x, y);
                }
            }
            for k in 0..8usize
                invariant
                    self.wf(),
                    sx < 11,
                    sy < 7,
                    head < q0.len(),
                    q0.len() <= 77,
                    q0.len() <= queue@.len(),
                    k < 8 ==> bfs_state(sx as int, sy as int, (head * 8 + k) as nat) == (queue@, head as nat, k as nat),
                    k == 8 ==> bfs_state(sx as int, sy as int, (head * 8 + 8) as nat) == (
                        queue@,
                        (head + 1) as nat,
                        0nat,
                    ),
                    forall|i: int|
                        0 <= i < queue@.len() ==> self.occupancy(#[trigger] queue@[i].0 as int, queue@[i].1 as int)
                            != 0,
                    queue@.subrange(0, q0.len() as int) == q0,
                    q0[head as int] == (cx, cy),
                    d == qcheb(sx as int, sy as int, q0[head as int]),
                    q0[0] == (sx, sy),
                    queue@.len() == visited_count(visited@, 77),
                    forall|i: int| 0 <= i < queue@.len() ==> on_grid(#[trigger] queue@[i].0 as int, queue@[i].1 as int),
                    forall|i: int|
                        0 <= i < queue@.len() ==> self.occupancy(#[trigger] queue@[i].0 as int, queue@[i].1 as int)
                            != 0,
                    forall|x: int, y: int|
                        on_grid(x, y) ==> (#[trigger] visited@[x]@[y] <==> queue@.contains((x as usize, y as usize))),
                    forall|i: int, j: int|
                        0 <= i <= j < q0.len() ==> qcheb(sx as int, sy as int, #[trigger] q0[i]) <= qcheb(
                            sx as int,
                            sy as int,
                            #[trigger] q0[j],
                        ),
                    qcheb(sx as int, sy as int, q0[q0.len() - 1]) <= d + 1,
                    forall|i: int| q0.len() <= i < queue@.len() ==> qcheb(sx as int, sy as int, #[trigger] queue@[i]) == d + 1,
                    forall|x: int, y: int|
                        on_grid(x, y) && cheb(sx as int, sy as int, x, y) <= d ==> #[trigger] queue@.contains(
                            (x as usize, y as usize),
                        ),
                    forall|i: int, kk: int|
                        #![trigger q0[i], dir(kk)]
                        0 <= i < head && 0 <= kk < 8 && on_grid(q0[i].0 + dir(kk).0, q0[i].1 + dir(kk).1)
                            ==> queue@.contains(((q0[i].0 + dir(kk).0) as usize, (q0[i].1 + dir(kk).1) as usize)),
                    forall|kk: int|
                        0 <= kk < k && on_grid(cx + dir(kk).0, cy + dir(kk).1) ==> queue@.contains(
                            (((cx + dir(kk).0) as usize), ((cy + dir(kk).1) as usize)),
                        ),
            {
                let (dx, dy) = direction(k);
                let nx = cx as i32 + dx;
                let ny = cy as i32 + dy;
                let ghost kk = k as int;
                assert(nx == cx + dir(kk).0 && ny == cy + dir(kk).1);
                let ghost n = (head * 8 + k) as nat;
                proof {
                    assert(queue@[head as int] == q0[head as int]) by {
                        assert(queue@.subrange(0, q0.len() as int)[head as int] == queue@[head as int]);
                    }
                    lemma_bfs_step(sx as int, sy as int, n, queue@, head as nat, k as nat);
                }
                if !(nx < 0 || nx >= 11 || ny < 0 || ny >= 7) {
                    let ux = nx as usize;
                    let uy = ny as usize;
                    if !visited[ux][uy] {
                        proof {
                            // an unqueued neighbour lies one king's move further out
                            assert(!queue@.contains((ux, uy)));
                            assert(cheb(sx as int, sy as int, ux as int, uy as int) == d + 1);
                        }
                        let ghost vbefore = visited@;
                        let ghost qbefore = queue@;
                        visited[ux][uy] = true;
                        proof {
                            lemma_visited_count_mark(vbefore, visited@, ux as int, uy as int, 77);
                        }
                        assert(self.cell_spec(ux as int, uy as int).players() <= 22);
                        if self.cells[ux][uy].is_empty() {
                            proof {
                                let order = bfs_order(sx as int, sy as int);
                                let met = qbefore.push((ux, uy));
                                assert(bfs_state(sx as int, sy as int, n + 1).0 == met);
                                lemma_bfs_prefix(sx as int, sy as int, n + 1, 616);
                                assert(order.subrange(0, met.len() as int) == met);
                                let i = qbefore.len() as int;
                                assert(order[i] == met[i]);
                                assert forall|j: int| 0 <= j < i implies self.occupancy(
                                    (#[trigger] order[j]).0 as int,
                                    order[j].1 as int,
                                ) != 0 by {
                                    assert(order[j] == met[j]);
                                    assert(met[j] == qbefore[j]);
                                }
                                assert(self.is_first_open(order, i));
                                assert forall|u: int, v: int|
                                    on_grid(u, v) && #[trigger] self.occupancy(u, v) == 0 implies cheb(
                                    sx as int,
                                    sy as int,
                                    ux as int,
                                    uy as int,
                                ) <= cheb(sx as int, sy as int, u, v) by {
                                    if cheb(sx as int, sy as int, u, v) <= d {
                                        assert(qbefore.contains((u as usize, v as usize)));
                                        let i = choose|i: int|
                                            0 <= i < qbefore.len() && qbefore[i] == (u as usize, v as usize);
                                        assert(self.occupancy(qbefore[i].0 as int, qbefore[i].1 as int) != 0);
                                    }
                                }
                            }
                            return Some((ux, uy));
                        }
                        queue.push((ux, uy));
                        proof {
                            broadcast use vstd::seq_lib::lemma_seq_contains_after_push;

                            assert(queue@.subrange(0, q0.len() as int) =~= q0);
                            assert forall|x: int, y: int| on_grid(x, y) implies (#[trigger] visited@[x]@[y]
                                <==> queue@.contains((x as usize, y as usize))) by {
                                if !(x == ux && y == uy) {
                                    assert(visited@[x]@[y] == vbefore[x]@[y]);
                                }
                            }
                        }
                    }
                }
                proof {
                    broadcast use vstd::seq_lib::lemma_seq_contains_after_push;

                }
            }
            proof {
                assert forall|i: int, j: int| 0 <= i <= j < queue@.len() implies qcheb(
                    sx as int,
                    sy as int,
                    #[trigger] queue@[i],
                ) <= qcheb(sx as int, sy as int, #[trigger] queue@[j]) by {
                    if j < q0.len() {
                        assert(queue@[i] == q0[i] && queue@[j] == q0[j]);
                    } else if i < q0.len() {
                        assert(queue@[i] == q0[i]);
                        assert(qcheb(sx as int, sy as int, q0[i]) <= qcheb(sx as int, sy as int, q0[q0.len() - 1]));
                    }
                }
                assert forall|i: int, kk: int|
                    #![trigger queue@[i], dir(kk)]
                    0 <= i < head + 1 && 0 <= kk < 8 && on_grid(queue@[i].0 + dir(kk).0, queue@[i].1 + dir(kk).1)
                        implies queue@.contains(
                    ((queue@[i].0 + dir(kk).0) as usize, (queue@[i].1 + dir(kk).1) as usize),
                ) by {
                    assert(queue@[i] == q0[i]);
                }
                if head + 1 < queue@.len() {
                    let nh = head + 1;
                    if nh < q0.len() {
                        assert(queue@[nh as int] == q0[nh as int]);
                        assert(qcheb(sx as int, sy as int, q0[head as int]) <= qcheb(sx as int, sy as int, q0[nh as int]));
                    }
                    if queue@.len() - 1 < q0.len() {
                        assert(queue@[queue@.len() - 1] == q0[q0.len() - 1]);
                    }
                }
            }
            head += 1;
        }
        proof {
            assert forall|u: int, v: int| on_grid(u, v) implies #[trigger] self.occupancy(u, v) != 0 by {
                lemma_reach(queue@, head as int, sx as int, sy as int, 20, u, v);
                let i = choose|i: int| 0 <= i < queue@.len() && queue@[i] == (u as usize, v as usize);
                assert(self.occupancy(queue@[i].0 as int, queue@[i].1 as int) != 0);
            }
        }
        None
    }

    /// The centre of an empty cell as few king's moves as possible from the
    /// cell holding `pos`, the first that a breadth-first search meets (see
    /// `nearest_open_cell`), or `None` when every cell holds a player.
    pub fn nearest_open_space(&self, pos: Coord10) -> (r: Option<Coord10>)
        requires
            self.wf(),
        ensures
            r is None <==> forall|u: int, v: int| on_grid(u, v) ==> #[trigger] self.occupancy(u, v) != 0,
            r matches Some(p) ==> exists|x: int, y: int|
                #![trigger self.is_nearest_open(cell_col(pos.x), cell_row(pos.y), x, y)]
                self.is_nearest_open(cell_col(pos.x), cell_row(pos.y), x, y) && p == cell_center(x, y),
            r matches Some(p) ==> exists|i: int|
                #[trigger] self.is_first_open(bfs_order(cell_col(pos.x), cell_row(pos.y)), i) && p == cell_center(
                    bfs_order(cell_col(pos.x), cell_row(pos.y))[i].0 as int,
                    bfs_order(cell_col(pos.x), cell_row(pos.y))[i].1 as int,
                ),
    {
        let (sx, sy) = Self::pos_to_cell(pos);
        match self.nearest_open_cell(sx, sy) {
            Some((x, y)) => {
                let c = Coord10 { x: x as i32 * 100 + 50, y: y as i32 * 100 + 50 };
                proof {
                    assert(self.is_nearest_open(cell_col(pos.x), cell_row(pos.y), x as int, y as int));
                    assert(self.occupancy(x as int, y as int) == 0);
                }
                Some(c)
            },
            None => None,
        }
    }
}

/// The centre of cell `(x, y)`, in 0.1 m.
pub open spec fn cell_center(x: int, y: int) -> Coord10 {
    Coord10 { x: (x * 100 + 50) as i32, y: (y * 100 + 50) as i32 }
}

proof fn lemma_visited_none(v: Seq<[bool; 7]>, k: int)
    requires
        0 <= k <= 77,
        v.len() == 11,
        forall|a: int, b: int| 0 <= a < 11 && 0 <= b < 7 ==> !(#[trigger] v[a]@[b]),
    ensures
        visited_count(v, k) == 0,
    decreases k,
{
    if k > 0 {
        lemma_visited_none(v, k - 1);
        assert(!v[(k - 1) / 7]@[(k - 1) % 7]);
    }
}

/// The line walk between two cells keeps its error term tied to the steps
/// taken: `a` of `dx` along x and `b` of `dy` along y.
pub open spec fn walk_inv(a: int, b: int, err: int, dx: int, dy: int) -> bool {
    &&& 0 <= a <= dx
    &&& 0 <= b <= dy
    &&& err == dx - dy - a * dy + b * dx
}

/// One step of the line walk: a step along x when twice the error exceeds
/// `-dy`, a step along y when it is below `dx`, both for a diagonal step.
pub open spec fn walk_step(a: int, b: int, err: int, dx: int, dy: int) -> (int, int, int) {
    let e2 = 2 * err;
    let (a1, err1) = if e2 > -dy { (a + 1, err - dy) } else { (a, err) };
    if e2 < dx { (a1, b + 1, err1 + dx) } else { (a1, b, err1) }
}

/// A step of the line walk keeps the error term tied to the steps and comes
/// strictly nearer to the last cell.
pub proof fn lemma_walk_step(a: int, b: int, err: int, dx: int, dy: int)
    requires
        walk_inv(a, b, err, dx, dy),
        !(a == dx && b == dy),
    ensures
        walk_inv(walk_step(a, b, err, dx, dy).0, walk_step(a, b, err, dx, dy).1, walk_step(a, b, err, dx, dy).2, dx, dy),
        (dx - walk_step(a, b, err, dx, dy).0) + (dy - walk_step(a, b, err, dx, dy).1) < (dx - a) + (dy - b),
{
    let e2 = 2 * err;
    if a == dx {
        // along x there is nothing left: the error is at most -dy
        assert(err <= -dy) by (nonlinear_arith)
            requires
                err == dx - dy - a * dy + b * dx,
                a == dx,
                0 <= b < dy,
                0 <= dx,
        {
            assert(dx - a * dy + b * dx == dx * (1 + b - dy));
        }
    }
    if b == dy {
        // along y there is nothing left: the error is at least dx
        assert(err >= dx) by (nonlinear_arith)
            requires
                err == dx - dy - a * dy + b * dx,
                b == dy,
                0 <= a < dx,
                0 <= dy,
        {
            assert(-dy - a * dy + b * dx == dy * (dx - a - 1));
        }
    }
    let (a1, b1, e1) = walk_step(a, b, err, dx, dy);
    assert(e1 == dx - dy - a1 * dy + b1 * dx) by (nonlinear_arith)
        requires
            err == dx - dy - a * dy + b * dx,
            a1 == a || a1 == a + 1,
            b1 == b || b1 == b + 1,
            e1 == err - (if a1 == a + 1 { dy } else { 0 }) + (if b1 == b + 1 { dx } else { 0 }),
    ;
}

/// The cells (as offsets from the first cell, taken in the walk's
/// directions) that the line walk visits from offset `(a, b)` to `(dx, dy)`.
pub open spec fn walk_cells(a: int, b: int, err: int, dx: int, dy: int) -> Seq<(int, int)>
    decreases (dx - a) + (dy - b),
    when walk_inv(a, b, err, dx, dy)
{
    if a == dx && b == dy {
        seq![(a, b)]
    } else {
        proof {
            lemma_walk_step(a, b, err, dx, dy);
        }
        let (a1, b1, e1) = walk_step(a, b, err, dx, dy);
        seq![(a, b)] + walk_cells(a1, b1, e1, dx, dy)
    }
}

/// Absolute difference.
pub open spec fn absdiff(a: int, b: int) -> int {
    if a >= b { a - b } else { b - a }
}

/// The cell reached by offset `(a, b)` from `(x0, y0)` towards `(x1, y1)`.
pub open spec fn walk_cell(x0: int, y0: int, x1: int, y1: int, o: (int, int)) -> (int, int) {
    (if x0 < x1 { x0 + o.0 } else { x0 - o.0 }, if y0 < y1 { y0 + o.1 } else { y0 - o.1 })
}

/// The cells of the line from cell `(x0, y0)` to cell `(x1, y1)`, as offsets.
pub open spec fn line_offsets(x0: int, y0: int, x1: int, y1: int) -> Seq<(int, int)> {
    let dx = absdiff(x1, x0);
    let dy = absdiff(y1, y0);
    walk_cells(0, 0, dx - dy, dx, dy)
}

impl SpaceAnalysis {
    /// Offset `o` of the line from `(x0, y0)` to `(x1, y1)` leads to a crowded
    /// cell other than the two ends.
    pub open spec fn blocks(self, x0: int, y0: int, x1: int, y1: int, o: (int, int)) -> bool {
        let c = walk_cell(x0, y0, x1, y1, o);
        &&& c != (x0, y0)
        &&& c != (x1, y1)
        &&& self.occupancy(c.0, c.1) >= 3
    }

    /// A crowded cell (three players or more), other than the two ends, lies on
    /// the line of cells from `(x0, y0)` to `(x1, y1)`.
    pub open spec fn line_blocked(self, x0: int, y0: int, x1: int, y1: int) -> bool {
        exists|i: int|
            0 <= i < line_offsets(x0, y0, x1, y1).len() && #[trigger] self.blocks(
                x0,
                y0,
                x1,
                y1,
                line_offsets(x0, y0, x1, y1)[i],
            )
    }

    /// Whether a crowded cell (three players or more) other than the first and
    /// the last lies on the line of cells between the cells holding `from` and
    /// `to`, the line drawn by stepping along x when twice the error term
    /// exceeds minus the y distance and along y when it is below the x
    /// distance.
    pub fn path_is_blocked(&self, from: Coord10, to: Coord10) -> (r: bool)
        requires
            self.wf(),
        ensures
            r == self.line_blocked(cell_col(from.x), cell_row(from.y), cell_col(to.x), cell_row(to.y)),
    {
        let (x0u, y0u) = Self::pos_to_cell(from);
        let (x1u, y1u) = Self::pos_to_cell(to);
        let x0 = x0u as i32;
        let y0 = y0u as i32;
        let x1 = x1u as i32;
        let y1 = y1u as i32;
        let dx: i32 = if x1 >= x0 { x1 - x0 } else { x0 - x1 };
        let dy: i32 = if y1 >= y0 { y1 - y0 } else { y0 - y1 };
        let sx: i32 = if x0 < x1 { 1 } else { -1 };
        let sy: i32 = if y0 < y1 { 1 } else { -1 };
        let mut err: i32 = dx - dy;
        let mut x = x0;
        let mut y = y0;
        let ghost gx0 = x0 as int;
        let ghost gy0 = y0 as int;
        let ghost gx1 = x1 as int;
        let ghost gy1 = y1 as int;
        let ghost whole = line_offsets(gx0, gy0, gx1, gy1);
        let ghost mut seen: Seq<(int, int)> = Seq::empty();
        let ghost mut a: int = 0;
        let ghost mut b: int = 0;
        proof {
            assert(walk_inv(0, 0, dx - dy, dx as int, dy as int));
            assert(whole == seen + walk_cells(a, b, err as int, dx as int, dy as int));
        }
        loop
            invariant
                self.wf(),
                0 <= x0 < 11,
                0 <= y0 < 7,
                0 <= x1 < 11,
                0 <= y1 < 7,
                gx0 == x0,
                gy0 == y0,
                gx1 == x1,
                gy1 == y1,
                x0u == x0,
                y0u == y0,
                x1u == x1,
                y1u == y1,
                gx0 == cell_col(from.x),
                gy0 == cell_row(from.y),
                gx1 == cell_col(to.x),
                gy1 == cell_row(to.y),
                dx == absdiff(gx1, gx0),
                dy == absdiff(gy1, gy0),
                sx == (if x0 < x1 { 1i32 } else { -1i32 }),
                sy == (if y0 < y1 { 1i32 } else { -1i32 }),
                walk_inv(a, b, err as int, dx as int, dy as int),
                (x as int, y as int) == walk_cell(gx0, gy0, gx1, gy1, (a, b)),
                whole == line_offsets(gx0, gy0, gx1, gy1),
                whole == seen + walk_cells(a, b, err as int, dx as int, dy as int),
                forall|i: int| 0 <= i < seen.len() ==> !#[trigger] self.blocks(gx0, gy0, gx1, gy1, seen[i]),
            ensures
                !self.line_blocked(gx0, gy0, gx1, gy1),
            decreases (dx - a) + (dy - b),
        {
            assert(0 <= x < 11 && 0 <= y < 7);
            let ux = x as usize;
            let uy = y as usize;
            assert(self.cell_spec(ux as int, uy as int).players() <= 22);
            let ghost here = walk_cells(a, b, err as int, dx as int, dy as int);
            let at_start = ux == x0u && uy == y0u;
            let at_end = ux == x1u && uy == y1u;
            if !at_start && !at_end && self.cells[ux][uy].is_crowded() {
                proof {
                    assert(here[0] == (a, b));
                    assert(whole[seen.len() as int] == (a, b));
                    assert(self.blocks(gx0, gy0, gx1, gy1, whole[seen.len() as int]));
                }
                return true;
            }
            if x == x1 && y == y1 {
                proof {
                    assert(a == dx && b == dy);
                    assert(here == seq![(a, b)]);
                    assert forall|i: int| 0 <= i < whole.len() implies !#[trigger] self.blocks(
                        gx0,
                        gy0,
                        gx1,
                        gy1,
                        whole[i],
                    ) by {
                        if i < seen.len() {
                            assert(whole[i] == seen[i]);
                        } else {
                            assert(whole[i] == (a, b));
                        }
                    }
                }
                break;
            }
            proof {
                lemma_walk_step(a, b, err as int, dx as int, dy as int);
                let (a1, b1, e1) = walk_step(a, b, err as int, dx as int, dy as int);
                assert(here == seq![(a, b)] + walk_cells(a1, b1, e1, dx as int, dy as int));
                assert(whole == seen.push((a, b)) + walk_cells(a1, b1, e1, dx as int, dy as int)) by {
                    assert(seen + (seq![(a, b)] + walk_cells(a1, b1, e1, dx as int, dy as int)) =~= seen.push((a, b))
                        + walk_cells(a1, b1, e1, dx as int, dy as int));
                }
            }
            proof {
                let (ga, gb, ge, gdx, gdy) = (a, b, err as int, dx as int, dy as int);
                assert(-100 <= ge <= 100) by (nonlinear_arith)
                    requires
                        0 <= ga <= gdx <= 10,
                        0 <= gb <= gdy <= 10,
                        ge == gdx - gdy - ga * gdy + gb * gdx,
                ;
            }
            let e2 = 2 * err;
            let ghost old_seen = seen;
            let ghost old_a = a;
            let ghost old_b = b;
            if e2 > -dy {
                err -= dy;
                x += sx;
                proof {
                    a = a + 1;
                }
            }
            if e2 < dx {
                err += dx;
                y += sy;
                proof {
                    b = b + 1;
                }
            }
            proof {
                seen = old_seen.push((old_a, old_b));
                assert forall|i: int| 0 <= i < seen.len() implies !#[trigger] self.blocks(gx0, gy0, gx1, gy1, seen[i]) by {
                    if i < old_seen.len() {
                        assert(seen[i] == old_seen[i]);
                    }
                }
            }
        }
        false
    }
}

/// The line walk starts at its first offset, ends at `(dx, dy)`, and each
/// step moves one cell along x, along y, or both: the cells of a line form
/// an unbroken chain from the first cell to the last.
pub proof fn lemma_walk_chain(a: int, b: int, err: int, dx: int, dy: int)
    requires
        walk_inv(a, b, err, dx, dy),
    ensures
        walk_cells(a, b, err, dx, dy).len() >= 1,
        walk_cells(a, b, err, dx, dy)[0] == (a, b),
        walk_cells(a, b, err, dx, dy).last() == (dx, dy),
        forall|i: int|
            0 <= i < walk_cells(a, b, err, dx, dy).len() - 1 ==> {
                let p = #[trigger] walk_cells(a, b, err, dx, dy)[i];
                let q = walk_cells(a, b, err, dx, dy)[i + 1];
                &&& (q.0 == p.0 || q.0 == p.0 + 1)
                &&& (q.1 == p.1 || q.1 == p.1 + 1)
                &&& q != p
            },
    decreases (dx - a) + (dy - b),
{
    if !(a == dx && b == dy) {
        lemma_walk_step(a, b, err, dx, dy);
        let (a1, b1, e1) = walk_step(a, b, err, dx, dy);
        lemma_walk_chain(a1, b1, e1, dx, dy);
        let w = walk_cells(a, b, err, dx, dy);
        let rest = walk_cells(a1, b1, e1, dx, dy);
        assert(w == seq![(a, b)] + rest);
        assert forall|i: int| 0 <= i < w.len() - 1 implies {
            let p = #[trigger] w[i];
            let q = w[i + 1];
            &&& (q.0 == p.0 || q.0 == p.0 + 1)
            &&& (q.1 == p.1 || q.1 == p.1 + 1)
            &&& q != p
        } by {
            if i > 0 {
                assert(w[i] == rest[i - 1]);
                assert(w[i + 1] == rest[i]);
            } else {
                assert(w[1] == rest[0]);
            }
        }
    }
}

/// The cell at offset `o` of the line from `(x0, y0)` to `(x1, y1)`, as
/// indices.
pub open spec fn offset_cell(x0: int, y0: int, x1: int, y1: int, o: (int, int)) -> (usize, usize) {
    let c = walk_cell(x0, y0, x1, y1, o);
    (c.0 as usize, c.1 as usize)
}

impl SpaceAnalysis {
    /// The cells of the line from the cell holding `from` to the cell holding
    /// `to`, both ends included, in the order the line walk visits them (see
    /// `path_is_blocked`).
    pub fn line_cells(from: Coord10, to: Coord10) -> (r: Vec<(usize, usize)>)
        ensures
            r@.len() == line_offsets(cell_col(from.x), cell_row(from.y), cell_col(to.x), cell_row(to.y)).len(),
            forall|i: int|
                0 <= i < r@.len() ==> #[trigger] r@[i] == offset_cell(
                    cell_col(from.x),
                    cell_row(from.y),
                    cell_col(to.x),
                    cell_row(to.y),
                    line_offsets(cell_col(from.x), cell_row(from.y), cell_col(to.x), cell_row(to.y))[i],
                ),
            forall|i: int| 0 <= i < r@.len() ==> (#[trigger] r@[i]).0 < 11 && r@[i].1 < 7,
    {
        let (x0u, y0u) = Self::pos_to_cell(from);
        let (x1u, y1u) = Self::pos_to_cell(to);
        let x0 = x0u as i32;
        let y0 = y0u as i32;
        let x1 = x1u as i32;
        let y1 = y1u as i32;
        let dx: i32 = if x1 >= x0 { x1 - x0 } else { x0 - x1 };
        let dy: i32 = if y1 >= y0 { y1 - y0 } else { y0 - y1 };
        let sx: i32 = if x0 < x1 { 1 } else { -1 };
        let sy: i32 = if y0 < y1 { 1 } else { -1 };
        let mut err: i32 = dx - dy;
        let mut x = x0;
        let mut y = y0;
        let ghost gx0 = x0 as int;
        let ghost gy0 = y0 as int;
        let ghost gx1 = x1 as int;
        let ghost gy1 = y1 as int;
        let ghost whole = line_offsets(gx0, gy0, gx1, gy1);
        let ghost mut seen: Seq<(int, int)> = Seq::empty();
        let ghost mut a: int = 0;
        let ghost mut b: int = 0;
        let mut cells: Vec<(usize, usize)> = Vec::new();
        proof {
            assert(walk_inv(0, 0, dx - dy, dx as int, dy as int));
            assert(whole == seen + walk_cells(a, b, err as int, dx as int, dy as int));
        }
        loop
            invariant_except_break
                whole == seen + walk_cells(a, b, err as int, dx as int, dy as int),
                cells@.len() == seen.len(),
                forall|i: int| 0 <= i < seen.len() ==> #[trigger] cells@[i] == offset_cell(gx0, gy0, gx1, gy1, seen[i]),
            invariant
                0 <= x0 < 11,
                0 <= y0 < 7,
                0 <= x1 < 11,
                0 <= y1 < 7,
                gx0 == x0,
                gy0 == y0,
                gx1 == x1,
                gy1 == y1,
                gx0 == cell_col(from.x),
                gy0 == cell_row(from.y),
                gx1 == cell_col(to.x),
                gy1 == cell_row(to.y),
                dx == absdiff(gx1, gx0),
                dy == absdiff(gy1, gy0),
                sx == (if x0 < x1 { 1i32 } else { -1i32 }),
                sy == (if y0 < y1 { 1i32 } else { -1i32 }),
                walk_inv(a, b, err as int, dx as int, dy as int),
                (x as int, y as int) == walk_cell(gx0, gy0, gx1, gy1, (a, b)),
                whole == line_offsets(gx0, gy0, gx1, gy1),
                forall|i: int| 0 <= i < cells@.len() ==> (#[trigger] cells@[i]).0 < 11 && cells@[i].1 < 7,
            ensures
                cells@.len() == whole.len(),
                forall|i: int| 0 <= i < cells@.len() ==> #[trigger] cells@[i] == offset_cell(gx0, gy0, gx1, gy1, whole[i]),
            decreases (dx - a) + (dy - b),
        {
            assert(0 <= x < 11 && 0 <= y < 7);
            let ghost here = walk_cells(a, b, err as int, dx as int, dy as int);
            let ghost old_seen = seen;
            let ghost old_a = a;
            let ghost old_b = b;
            let ghost old_cells = cells@;
            cells.push((x as usize, y as usize));
            proof {
                assert forall|i: int| 0 <= i < old_cells.len() implies cells@[i] == old_cells[i] by {}
                assert(cells@[old_cells.len() as int] == (x as usize, y as usize));
                assert(offset_cell(gx0, gy0, gx1, gy1, (a, b)) == (x as usize, y as usize));
            }
            if x == x1 && y == y1 {
                proof {
                    assert(a == dx && b == dy);
                    assert(here == seq![(a, b)]);
                    assert(whole =~= seen.push((a, b)));
                    assert forall|i: int| 0 <= i < cells@.len() implies #[trigger] cells@[i] == offset_cell(
                        gx0,
                        gy0,
                        gx1,
                        gy1,
                        whole[i],
                    ) by {
                        if i < seen.len() {
                            assert(whole[i] == seen[i]);
                            assert(cells@[i] == old_cells[i]);
                        } else {
                            assert(whole[i] == (a, b));
                        }
                    }
                }
                break;
            }
            proof {
                lemma_walk_step(a, b, err as int, dx as int, dy as int);
                let (a1, b1, e1) = walk_step(a, b, err as int, dx as int, dy as int);
                assert(here == seq![(a, b)] + walk_cells(a1, b1, e1, dx as int, dy as int));
                assert(whole == seen.push((a, b)) + walk_cells(a1, b1, e1, dx as int, dy as int)) by {
                    assert(seen + (seq![(a, b)] + walk_cells(a1, b1, e1, dx as int, dy as int)) =~= seen.push((a, b))
                        + walk_cells(a1, b1, e1, dx as int, dy as int));
                }
                let (ga, gb, ge, gdx, gdy) = (a, b, err as int, dx as int, dy as int);
                assert(-100 <= ge <= 100) by (nonlinear_arith)
                    requires
                        0 <= ga <= gdx <= 10,
                        0 <= gb <= gdy <= 10,
                        ge == gdx - gdy - ga * gdy + gb * gdx,
                ;
            }
            let e2 = 2 * err;
            if e2 > -dy {
                err -= dy;
                x += sx;
                proof {
                    a = a + 1;
                }
            }
            if e2 < dx {
                err += dx;
                y += sy;
                proof {
                    b = b + 1;
                }
            }
            proof {
                seen = old_seen.push((old_a, old_b));
                assert forall|i: int| 0 <= i < seen.len() implies #[trigger] cells@[i] == offset_cell(
                    gx0,
                    gy0,
                    gx1,
                    gy1,
                    seen[i],
                ) by {
                    if i < old_seen.len() {
                        assert(seen[i] == old_seen[i]);
                        assert(cells@[i] == old_cells[i]);
                    } else {
                        assert(seen[i] == (old_a, old_b));
                    }
                }
            }
        }
        cells
    }
}

/// Quality of a cell from its head count, in percent: 100 for an empty cell,
/// 25 less for each player, none from four players on.
pub open spec fn quality_pct(n: int) -> int {
    if n >= 4 {
        0
    } else {
        100 - 25 * n
    }
}

/// Quality of a cell for one team, in percent: 20 off for each opponent and
/// 8 for each team-mate, never below 0.
pub open spec fn team_quality_pct(c: CellOccupancy, is_home: bool) -> int {
    let mates: int = if is_home { c.home_count as int } else { c.away_count as int };
    let opps: int = if is_home { c.away_count as int } else { c.home_count as int };
    let q = 100 - 20 * opps - 8 * mates;
    if q < 0 {
        0
    } else {
        q
    }
}

/// Offset `k` (0 to 8) of the 3 x 3 block around a cell, column by column
/// from (-1, -1) to (1, 1).
pub open spec fn block_offset(k: int) -> (int, int) {
    (k / 3 - 1, k % 3 - 1)
}

/// Sum of qualities (percent) and number of on-grid cells among the first
/// `k` cells of the 3 x 3 block around cell `(cx, cy)`.
pub open spec fn block_parts(s: SpaceAnalysis, cx: int, cy: int, k: int) -> (int, int)
    decreases k,
{
    if k <= 0 {
        (0, 0)
    } else {
        let r = block_parts(s, cx, cy, k - 1);
        let o = block_offset(k - 1);
        if on_grid(cx + o.0, cy + o.1) {
            (r.0 + quality_pct(s.occupancy(cx + o.0, cy + o.1)), r.1 + 1)
        } else {
            r
        }
    }
}

/// Sum of team qualities (percent) and number of the cells of a list that
/// are neither `s` nor `e`.
pub open spec fn lane_parts(
    a: SpaceAnalysis,
    cells: Seq<(usize, usize)>,
    s: (usize, usize),
    e: (usize, usize),
    is_home: bool,
) -> (int, int)
    decreases cells.len(),
{
    if cells.len() == 0 {
        (0, 0)
    } else {
        let r = lane_parts(a, cells.drop_last(), s, e, is_home);
        let c = cells.last();
        if c == s || c == e {
            r
        } else {
            (r.0 + team_quality_pct(a.cell_spec(c.0 as int, c.1 as int), is_home), r.1 + 1)
        }
    }
}

/// The cells of the line between the cells holding `from` and `to`, ends
/// included.
pub open spec fn line_cell_seq(from: Coord10, to: Coord10) -> Seq<(usize, usize)> {
    let (x0, y0, x1, y1) = (cell_col(from.x), cell_row(from.y), cell_col(to.x), cell_row(to.y));
    Seq::new(
        line_offsets(x0, y0, x1, y1).len(),
        |i: int| offset_cell(x0, y0, x1, y1, line_offsets(x0, y0, x1, y1)[i]),
    )
}

/// A line walk visits at most one cell per step along either axis.
proof fn lemma_walk_len(a: int, b: int, err: int, dx: int, dy: int)
    requires
        walk_inv(a, b, err, dx, dy),
    ensures
        walk_cells(a, b, err, dx, dy).len() <= (dx - a) + (dy - b) + 1,
    decreases (dx - a) + (dy - b),
{
    if !(a == dx && b == dy) {
        lemma_walk_step(a, b, err, dx, dy);
        let (a1, b1, e1) = walk_step(a, b, err, dx, dy);
        lemma_walk_len(a1, b1, e1, dx, dy);
    }
}

impl SpaceAnalysis {
    /// Quality of the space at a position, in percent: 100 in an empty cell,
    /// 75, 50 and 25 with one, two and three players, 0 with four or more.
    pub fn space_quality(&self, pos: Coord10) -> (r: u32)
        requires
            self.wf(),
        ensures
            r == quality_pct(self.occupancy(cell_col(pos.x), cell_row(pos.y))),
    {
        let (cx, cy) = Self::pos_to_cell(pos);
        assert(self.cell_spec(cx as int, cy as int).players() <= 22);
        let n = self.cells[cx][cy].total();
        if n >= 4 {
            0
        } else {
            100 - 25 * n as u32
        }
    }

    /// Quality of the space at a position for one team, in percent: 100 less
    /// 20 for each opponent and 8 for each team-mate in the cell, never below 0.
    pub fn space_quality_for_team(&self, pos: Coord10, is_home: bool) -> (r: u32)
        ensures
            r == team_quality_pct(self.cell_spec(cell_col(pos.x), cell_row(pos.y)), is_home),
    {
        let (cx, cy) = Self::pos_to_cell(pos);
        self.team_quality_at(cx, cy, is_home)
    }

    fn team_quality_at(&self, cx: usize, cy: usize, is_home: bool) -> (r: u32)
        requires
            cx < 11,
            cy < 7,
        ensures
            r == team_quality_pct(self.cell_spec(cx as int, cy as int), is_home),
            r <= 100,
    {
        let c = self.cells[cx][cy];
        let (mates, opps) = if is_home {
            (c.home_count as i32, c.away_count as i32)
        } else {
            (c.away_count as i32, c.home_count as i32)
        };
        let q = 100 - 20 * opps - 8 * mates;
        if q < 0 {
            0
        } else {
            q as u32
        }
    }

    /// The neighbour of cell `(cx, cy)` of best quality for a team, as an
    /// offset (`dx`, `dy`) in -1..=1, if its quality is above that of the cell
    /// itself; `(0, 0)` otherwise. Among neighbours of equal quality the first
    /// in the order N, NE, E, SE, S, SW, W, NW is taken.
    pub fn best_space_neighbour_for_team(&self, cx: usize, cy: usize, is_home: bool) -> (r: (i32, i32))
        requires
            cx < 11,
            cy < 7,
        ensures
            r == (0i32, 0i32) <==> forall|k: int|
                0 <= k < 8 && on_grid(cx + dir(k).0, cy + dir(k).1) ==> #[trigger] self.team_q(
                    cx + dir(k).0,
                    cy + dir(k).1,
                    is_home,
                ) <= self.team_q(cx as int, cy as int, is_home),
            r != (0i32, 0i32) ==> exists|k: int|
                0 <= k < 8 && r == (dir(k).0 as i32, dir(k).1 as i32) && self.is_best_neighbour(
                    cx as int,
                    cy as int,
                    k,
                    is_home,
                ),
    {
        let mut best_dir: (i32, i32) = (0, 0);
        let mut best_k: usize = 8;
        let mut best_q: u32 = self.team_quality_at(cx, cy, is_home);
        let ghost cur = self.team_q(cx as int, cy as int, is_home);
        for k in 0..8usize
            invariant
                cx < 11,
                cy < 7,
                cur == self.team_q(cx as int, cy as int, is_home),
                best_k <= 8,
                best_q >= cur,
                best_k == 8 ==> best_dir == (0i32, 0i32) && best_q == cur,
                best_k < 8 ==> best_k < k,
                best_k < 8 ==> best_dir == (dir(best_k as int).0 as i32, dir(best_k as int).1 as i32),
                best_k < 8 ==> on_grid(cx + dir(best_k as int).0, cy + dir(best_k as int).1),
                best_k < 8 ==> best_q == self.team_q(cx + dir(best_k as int).0, cy + dir(best_k as int).1, is_home),
                best_k < 8 ==> best_q > cur,
                forall|j: int|
                    0 <= j < k && on_grid(cx + dir(j).0, cy + dir(j).1) ==> #[trigger] self.team_q(
                        cx + dir(j).0,
                        cy + dir(j).1,
                        is_home,
                    ) <= best_q,
                best_k < 8 ==> forall|j: int|
                    0 <= j < best_k && on_grid(cx + dir(j).0, cy + dir(j).1) ==> #[trigger] self.team_q(
                        cx + dir(j).0,
                        cy + dir(j).1,
                        is_home,
                    ) < best_q,
        {
            let (dx, dy) = direction(k);
            let nx = cx as i32 + dx;
            let ny = cy as i32 + dy;
            let ghost kk = k as int;
            assert(nx == cx + dir(kk).0 && ny == cy + dir(kk).1);
            if !(nx < 0 || nx >= 11 || ny < 0 || ny >= 7) {
                let q = self.team_quality_at(nx as usize, ny as usize, is_home);
                assert(q == self.team_q(cx + dir(kk).0, cy + dir(kk).1, is_home));
                if q > best_q {
                    let ghost old_best = best_q;
                    best_q = q;
                    best_dir = (dx, dy);
                    best_k = k;
                    proof {
                        assert forall|j: int|
                            0 <= j < k + 1 && on_grid(cx + dir(j).0, cy + dir(j).1) implies #[trigger] self.team_q(
                            cx + dir(j).0,
                            cy + dir(j).1,
                            is_home,
                        ) <= best_q by {
                            if j < k {
                                assert(self.team_q(cx + dir(j).0, cy + dir(j).1, is_home) <= old_best);
                            }
                        }
                        assert forall|j: int|
                            0 <= j < best_k && on_grid(cx + dir(j).0, cy + dir(j).1) implies #[trigger] self.team_q(
                            cx + dir(j).0,
                            cy + dir(j).1,
                            is_home,
                        ) < best_q by {
                            assert(self.team_q(cx + dir(j).0, cy + dir(j).1, is_home) <= old_best);
                        }
                    }
                }
            }
        }
        proof {
            if best_k < 8 {
                let bk = best_k as int;
                assert(dir(bk).0 != 0 || dir(bk).1 != 0);
                assert(self.is_best_neighbour(cx as int, cy as int, bk, is_home));
                assert(!(self.team_q(cx + dir(bk).0, cy + dir(bk).1, is_home) <= cur));
            }
        }
        best_dir
    }

    /// Team quality (percent) of cell `(x, y)`.
    pub open spec fn team_q(self, x: int, y: int, is_home: bool) -> int {
        team_quality_pct(self.cell_spec(x, y), is_home)
    }

    /// Neighbour `k` of cell `(cx, cy)` is on the grid, of better quality for
    /// the team than the cell, no neighbour is better, and every earlier
    /// neighbour is worse.
    pub open spec fn is_best_neighbour(self, cx: int, cy: int, k: int, is_home: bool) -> bool {
        &&& on_grid(cx + dir(k).0, cy + dir(k).1)
        &&& self.team_q(cx + dir(k).0, cy + dir(k).1, is_home) > self.team_q(cx, cy, is_home)
        &&& forall|j: int|
            0 <= j < 8 && on_grid(cx + dir(j).0, cy + dir(j).1) ==> #[trigger] self.team_q(
                cx + dir(j).0,
                cy + dir(j).1,
                is_home,
            ) <= self.team_q(cx + dir(k).0, cy + dir(k).1, is_home)
        &&& forall|j: int|
            0 <= j < k && on_grid(cx + dir(j).0, cy + dir(j).1) ==> #[trigger] self.team_q(
                cx + dir(j).0,
                cy + dir(j).1,
                is_home,
            ) < self.team_q(cx + dir(k).0, cy + dir(k).1, is_home)
    }

    /// Quality of the 3 x 3 block of cells around a position: the sum of the
    /// cells' qualities in percent (as in `space_quality`) and the number of
    /// those cells on the grid; their ratio is the average quality.
    pub fn area_quality(&self, pos: Coord10) -> (r: (u32, u32))
        requires
            self.wf(),
        ensures
            r.0 == block_parts(*self, cell_col(pos.x), cell_row(pos.y), 9).0,
            r.1 == block_parts(*self, cell_col(pos.x), cell_row(pos.y), 9).1,
            1 <= r.1 <= 9,
    {
        let (cx, cy) = Self::pos_to_cell(pos);
        let mut total: u32 = 0;
        let mut count: u32 = 0;
        for k in 0..9u32
            invariant
                self.wf(),
                cx < 11,
                cy < 7,
                total == block_parts(*self, cx as int, cy as int, k as int).0,
                count == block_parts(*self, cx as int, cy as int, k as int).1,
                total <= 100 * k,
                count <= k,
                k > 4 ==> count >= 1,
        {
            let dx = (k / 3) as i32 - 1;
            let dy = (k % 3) as i32 - 1;
            let nx = cx as i32 + dx;
            let ny = cy as i32 + dy;
            if nx >= 0 && nx < 11 && ny >= 0 && ny < 7 {
                assert(self.cell_spec(nx as int, ny as int).players() <= 22);
                let n = self.cells[nx as usize][ny as usize].total();
                let q: u32 = if n >= 4 {
                    0
                } else {
                    100 - 25 * n as u32
                };
                total = total + q;
                count = count + 1;
            }
        }
        (total, count)
    }

    /// Quality of the passing lane between two positions for a team: when both
    /// lie in one cell, that cell's team quality (percent, as in
    /// `space_quality_for_team`) and 1; otherwise the sum of the team
    /// qualities of the cells on the line between them (see `line_cells`)
    /// other than the two end cells, and the number of those cells. Their
    /// ratio is the average quality; no cell between the ends means a clear
    /// lane.
    pub fn passing_lane_quality(&self, from: Coord10, to: Coord10, is_home: bool) -> (r: (u32, u32))
        ensures
            (cell_col(from.x), cell_row(from.y)) == (cell_col(to.x), cell_row(to.y)) ==> r == (
                team_quality_pct(self.cell_spec(cell_col(from.x), cell_row(from.y)), is_home) as u32,
                1u32,
            ),
            (cell_col(from.x), cell_row(from.y)) != (cell_col(to.x), cell_row(to.y)) ==> {
                let p = lane_parts(
                    *self,
                    line_cell_seq(from, to),
                    (cell_col(from.x) as usize, cell_row(from.y) as usize),
                    (cell_col(to.x) as usize, cell_row(to.y) as usize),
                    is_home,
                );
                r.0 == p.0 && r.1 == p.1
            },
    {
        let s = Self::pos_to_cell(from);
        let e = Self::pos_to_cell(to);
        if s.0 == e.0 && s.1 == e.1 {
            let q = self.team_quality_at(s.0, s.1, is_home);
            return (q, 1);
        }
        let cells = Self::line_cells(from, to);
        let ghost x0 = cell_col(from.x);
        let ghost y0 = cell_row(from.y);
        let ghost x1 = cell_col(to.x);
        let ghost y1 = cell_row(to.y);
        proof {
            assert(cells@ =~= line_cell_seq(from, to));
            let dx = absdiff(x1, x0);
            let dy = absdiff(y1, y0);
            lemma_walk_len(0, 0, dx - dy, dx, dy);
        }
        let n = cells.len();
        let mut total: u32 = 0;
        let mut count: u32 = 0;
        for i in 0..n
            invariant
                n == cells@.len(),
                n <= 17,
                cells@ == line_cell_seq(from, to),
                forall|j: int| 0 <= j < cells@.len() ==> (#[trigger] cells@[j]).0 < 11 && cells@[j].1 < 7,
                total == lane_parts(*self, cells@.take(i as int), s, e, is_home).0,
                count == lane_parts(*self, cells@.take(i as int), s, e, is_home).1,
                total <= 100 * i,
                count <= i,
        {
            let c = cells[i];
            proof {
                assert(cells@.take(i + 1).drop_last() =~= cells@.take(i as int));
                assert(cells@.take(i + 1).last() == c);
            }
            if !((c.0 == s.0 && c.1 == s.1) || (c.0 == e.0 && c.1 == e.1)) {
                let q = self.team_quality_at(c.0, c.1, is_home);
                total = total + q;
                count = count + 1;
            }
        }
        proof {
            assert(cells@.take(n as int) =~= cells@);
        }
        (total, count)
    }
}

} // verus!
