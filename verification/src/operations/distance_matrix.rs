//! Distances between all players, computed once per tick and then read.
//!
//! The matrix holds squared distances in (0.1 m)^2, so every comparison of
//! distances is exact.
use vstd::prelude::*;
use crate::geometry::{Coord10, dist_sq, distance_sq};
use crate::operations::players_ops::{
    range_except,
    team_start,
    lemma_range_except_props,
    lemma_unchosen_exists,
};

verus! {

/// Squared distances between the 22 players.
#[derive(Debug, Clone)]
pub struct PlayerDistanceMatrix {
    distances: [[u128; 22]; 22],
    last_update_tick: u32,
}

/// Number of the players `cands` within `radius` (0.1 m) of player `i`, by
/// the matrix `m`.
pub open spec fn count_within_sq(m: PlayerDistanceMatrix, i: int, cands: Seq<usize>, radius: int) -> nat
    decreases cands.len(),
{
    if cands.len() == 0 {
        0
    } else {
        count_within_sq(m, i, cands.drop_last(), radius) + if m.d(i, cands.last() as int) <= radius * radius {
            1nat
        } else {
            0nat
        }
    }
}

proof fn lemma_dist_sq_symmetric(a: Coord10, b: Coord10)
    ensures
        dist_sq(a, b) == dist_sq(b, a),
        dist_sq(a, a) == 0,
{
    assert((a.x - b.x) * (a.x - b.x) == (b.x - a.x) * (b.x - a.x)) by (nonlinear_arith);
    assert((a.y - b.y) * (a.y - b.y) == (b.y - a.y) * (b.y - a.y)) by (nonlinear_arith);
}

impl PlayerDistanceMatrix {
    /// Squared distance (0.1 m)^2 between players `a` and `b`.
    pub closed spec fn d(self, a: int, b: int) -> u128 {
        self.distances@[a]@[b]
    }

    /// The tick of the last update.
    pub closed spec fn tick(self) -> u32 {
        self.last_update_tick
    }

    /// Player `a` comes before player `b` by distance from player `i`, the
    /// lower index first at equal distance.
    pub open spec fn before(self, i: int, a: int, b: int) -> bool {
        self.d(i, a) < self.d(i, b) || (self.d(i, a) == self.d(i, b) && a < b)
    }

    /// Player `j` is another player than `i`, within `radius` (0.1 m) of it.
    pub open spec fn within(self, i: int, j: int, radius: int) -> bool {
        j != i && self.d(i, j) <= radius * radius
    }

    /// `k` is the player of `cands` nearest to `i`, the first in `cands` at
    /// equal distance.
    pub open spec fn is_first_nearest(self, i: int, cands: Seq<usize>, k: int) -> bool {
        &&& cands.contains(k as usize)
        &&& forall|n: int| 0 <= n < cands.len() ==> self.d(i, k) <= self.d(i, #[trigger] cands[n] as int)
        &&& forall|n: int|
            0 <= n < cands.len() && self.d(i, #[trigger] cands[n] as int) == self.d(i, k) ==> k <= cands[n]
    }

    /// The matrix is symmetric with a zero diagonal: the distance from `a` to
    /// `b` is the distance from `b` to `a`, and from a player to itself none.
    pub open spec fn symmetric(self) -> bool {
        &&& forall|a: int, b: int| 0 <= a < 22 && 0 <= b < 22 ==> #[trigger] self.d(a, b) == self.d(b, a)
        &&& forall|a: int| 0 <= a < 22 ==> #[trigger] self.d(a, a) == 0
    }

    /// A matrix of zeros, never updated.
    pub fn new() -> (r: PlayerDistanceMatrix)
        ensures
            r.tick() == 0,
            r.symmetric(),
            forall|a: int, b: int| 0 <= a < 22 && 0 <= b < 22 ==> #[trigger] r.d(a, b) == 0,
    {
        PlayerDistanceMatrix { distances: [[0u128; 22]; 22], last_update_tick: 0 }
    }

    /// Recomputes every distance from the positions, unless the matrix was
    /// already updated at this tick (tick 0 always updates).
    pub fn update(&mut self, positions: &[Coord10; 22], current_tick: u32)
        ensures
            old(self).tick() == current_tick && current_tick > 0 ==> *final(self) == *old(self),
            !(old(self).tick() == current_tick && current_tick > 0) ==> {
                &&& final(self).tick() == current_tick
                &&& forall|a: int, b: int|
                    0 <= a < 22 && 0 <= b < 22 ==> #[trigger] final(self).d(a, b) == dist_sq(
                        positions@[a],
                        positions@[b],
                    )
            },
            old(self).symmetric() || !(old(self).tick() == current_tick && current_tick > 0) ==> final(self).symmetric(),
    {
        if self.last_update_tick == current_tick && current_tick > 0 {
            return;
        }
        for i in 0..22usize
            invariant
                forall|a: int, b: int|
                    0 <= a < 22 && 0 <= b < 22 && (a < i || b < i) ==> #[trigger] self.distances@[a]@[b]
                        == dist_sq(positions@[a], positions@[b]),
        {
            proof {
                lemma_dist_sq_symmetric(positions@[i as int], positions@[i as int]);
            }
            self.distances[i][i] = 0;
            for j in (i + 1)..22usize
                invariant
                    i < 22,
                    forall|a: int, b: int|
                        0 <= a < 22 && 0 <= b < 22 && (a < i || b < i || (a == i && b == i) || (a == i && i < b
                            < j) || (b == i && i < a < j)) ==> #[trigger] self.distances@[a]@[b] == dist_sq(
                            positions@[a],
                            positions@[b],
                        ),
            {
                let dist = distance_sq(positions[i], positions[j]);
                proof {
                    lemma_dist_sq_symmetric(positions@[i as int], positions@[j as int]);
                }
                self.distances[i][j] = dist;
                self.distances[j][i] = dist;
            }
        }
        self.last_update_tick = current_tick;
        proof {
            assert forall|a: int, b: int| 0 <= a < 22 && 0 <= b < 22 implies #[trigger] self.d(a, b) == self.d(b, a) by {
                lemma_dist_sq_symmetric(positions@[a], positions@[b]);
            }
            assert forall|a: int| 0 <= a < 22 implies #[trigger] self.d(a, a) == 0 by {
                lemma_dist_sq_symmetric(positions@[a], positions@[a]);
            }
        }
    }

    /// Squared distance (0.1 m)^2 between two players.
    pub fn get_sq(&self, player_a: usize, player_b: usize) -> (r: u128)
        requires
            player_a < 22,
            player_b < 22,
        ensures
            r == self.d(player_a as int, player_b as int),
    {
        self.distances[player_a][player_b]
    }

    /// Squared distance between two players, `None` for an index out of range.
    pub fn get_checked_sq(&self, player_a: usize, player_b: usize) -> (r: Option<u128>)
        ensures
            r == if player_a < 22 && player_b < 22 {
                Some(self.d(player_a as int, player_b as int))
            } else {
                None
            },
    {
        if player_a < 22 && player_b < 22 {
            Some(self.distances[player_a][player_b])
        } else {
            None
        }
    }

    /// The tick of the last update.
    pub fn last_update_tick(&self) -> (r: u32)
        ensures
            r == self.tick(),
    {
        self.last_update_tick
    }

    /// Whether the matrix was last updated at another tick.
    pub fn is_stale(&self, current_tick: u32) -> (r: bool)
        ensures
            r == (self.tick() != current_tick),
    {
        self.last_update_tick != current_tick
    }

    /// The player of `cands` nearest to `player_idx`, the first in `cands` at
    /// equal distance, with its squared distance.
    fn first_nearest(&self, player_idx: usize, cands: &Vec<usize>) -> (r: Option<(usize, u128)>)
        requires
            player_idx < 22,
            forall|n: int| 0 <= n < cands@.len() ==> #[trigger] cands@[n] < 22,
            forall|n: int, m: int| 0 <= n < m < cands@.len() ==> #[trigger] cands@[n] < #[trigger] cands@[m],
        ensures
            cands@.len() == 0 ==> r is None,
            cands@.len() > 0 ==> (r matches Some(p) && p.1 == self.d(player_idx as int, p.0 as int)
                && self.is_first_nearest(player_idx as int, cands@, p.0 as int)),
    {
        let mut nearest: Option<(usize, u128)> = None;
        let n = cands.len();
        for k in 0..n
            invariant
                player_idx < 22,
                n == cands@.len(),
                forall|m: int| 0 <= m < cands@.len() ==> #[trigger] cands@[m] < 22,
                forall|a: int, b: int| 0 <= a < b < cands@.len() ==> #[trigger] cands@[a] < #[trigger] cands@[b],
                k == 0 ==> nearest is None,
                k > 0 ==> (nearest matches Some(p) && p.1 == self.d(player_idx as int, p.0 as int)
                    && cands@.take(k as int).contains(p.0) && (forall|m: int|
                    0 <= m < k ==> p.1 <= self.d(player_idx as int, #[trigger] cands@[m] as int)) && (forall|m: int|
                    0 <= m < k && self.d(player_idx as int, #[trigger] cands@[m] as int) == p.1 ==> p.0
                    <= cands@[m])),
        {
            let other = cands[k];
            let dist = self.distances[player_idx][other];
            let ghost prev = nearest;
            match nearest {
                None => {
                    nearest = Some((other, dist));
                },
                Some((_, best)) => {
                    if dist < best {
                        nearest = Some((other, dist));
                    }
                },
            }
            proof {
                let p = nearest.unwrap();
                assert(cands@.take(k + 1)[k as int] == other);
                if prev is Some && p == prev.unwrap() {
                    let i0 = choose|i0: int| 0 <= i0 < k && cands@.take(k as int)[i0] == p.0;
                    assert(cands@.take(k + 1)[i0] == p.0);
                }
                assert forall|m: int|
                    0 <= m < k + 1 && self.d(player_idx as int, #[trigger] cands@[m] as int) == p.1 implies p.0
                    <= cands@[m] by {
                    if m < k && !(prev is Some && p == prev.unwrap()) {
                        // the new nearest is strictly nearer than every earlier one
                        assert(self.d(player_idx as int, cands@[m] as int) >= prev.unwrap().1);
                    }
                    if m < k && prev is Some && p == prev.unwrap() {
                    }
                    if m == k && prev is Some && p == prev.unwrap() {
                        let i0 = choose|i0: int| 0 <= i0 < k && cands@.take(k as int)[i0] == p.0;
                        assert(cands@[i0] == p.0);
                        assert(cands@[i0] < cands@[m]);
                    }
                }
            }
        }
        proof {
            if n > 0 {
                assert(cands@.take(n as int) =~= cands@);
            }
        }
        nearest
    }

    /// The nearest teammate of a player, with its squared distance; the lower
    /// index at equal distance.
    pub fn nearest_teammate(&self, player_idx: usize) -> (r: Option<(usize, u128)>)
        requires
            player_idx < 22,
        ensures
            r matches Some(p) && p.1 == self.d(player_idx as int, p.0 as int) && self.is_first_nearest(
                player_idx as int,
                range_except(team_start(player_idx < 11), team_start(player_idx < 11) + 11, player_idx as int),
                p.0 as int,
            ),
    {
        let lo: usize = if player_idx < 11 { 0 } else { 11 };
        let cands = index_range(lo, lo + 11, player_idx);
        proof {
            lemma_range_except_props(lo as int, lo + 11, player_idx as int);
        }
        self.first_nearest(player_idx, &cands)
    }

    /// The nearest opponent of a player, with its squared distance; the lower
    /// index at equal distance.
    pub fn nearest_opponent(&self, player_idx: usize) -> (r: Option<(usize, u128)>)
        requires
            player_idx < 22,
        ensures
            r matches Some(p) && p.1 == self.d(player_idx as int, p.0 as int) && self.is_first_nearest(
                player_idx as int,
                range_except(team_start(player_idx >= 11), team_start(player_idx >= 11) + 11, -1),
                p.0 as int,
            ),
    {
        let lo: usize = if player_idx < 11 { 11 } else { 0 };
        let cands = index_range(lo, lo + 11, usize::MAX);
        proof {
            lemma_range_except_props(lo as int, lo + 11, usize::MAX as int);
            lemma_range_except_props(lo as int, lo + 11, -1);
            crate::operations::players_ops::lemma_range_except_absent(lo as int, lo + 11, usize::MAX as int, -1);
        }
        self.first_nearest(player_idx, &cands)
    }

    /// Number of `cands` within `radius` (0.1 m) of a player.
    fn count_within(&self, player_idx: usize, cands: &Vec<usize>, radius: u32) -> (r: usize)
        requires
            player_idx < 22,
            forall|n: int| 0 <= n < cands@.len() ==> #[trigger] cands@[n] < 22,
            cands@.len() <= 22,
        ensures
            r == count_within_sq(*self, player_idx as int, cands@, radius as int),
    {
        assert((radius as u128) * (radius as u128) <= 0xffff_ffff_ffff_ffff_ffff_ffff) by (nonlinear_arith)
            requires radius <= 0xffff_ffff;
        let rr: u128 = radius as u128 * radius as u128;
        let mut count: usize = 0;
        let n = cands.len();
        for k in 0..n
            invariant
                player_idx < 22,
                n == cands@.len(),
                n <= 22,
                rr == radius * radius,
                forall|m: int| 0 <= m < cands@.len() ==> #[trigger] cands@[m] < 22,
                count == count_within_sq(*self, player_idx as int, cands@.take(k as int), radius as int),
                count <= k,
        {
            let c = cands[k];
            proof {
                assert(cands@.take(k + 1).drop_last() =~= cands@.take(k as int));
                assert(cands@.take(k + 1).last() == c);
            }
            if self.distances[player_idx][c] <= rr {
                count += 1;
            }
        }
        proof {
            assert(cands@.take(n as int) =~= cands@);
        }
        count
    }

    /// Number of teammates within `radius` (0.1 m) of a player, boundary
    /// included.
    pub fn teammates_within(&self, player_idx: usize, radius: u32) -> (r: usize)
        requires
            player_idx < 22,
        ensures
            r == count_within_sq(
                *self,
                player_idx as int,
                range_except(team_start(player_idx < 11), team_start(player_idx < 11) + 11, player_idx as int),
                radius as int,
            ),
    {
        let lo: usize = if player_idx < 11 { 0 } else { 11 };
        let cands = index_range(lo, lo + 11, player_idx);
        proof {
            lemma_range_except_props(lo as int, lo + 11, player_idx as int);
        }
        self.count_within(player_idx, &cands, radius)
    }

    /// Number of opponents within `radius` (0.1 m) of a player, boundary
    /// included.
    pub fn opponents_within(&self, player_idx: usize, radius: u32) -> (r: usize)
        requires
            player_idx < 22,
        ensures
            r == count_within_sq(
                *self,
                player_idx as int,
                range_except(team_start(player_idx >= 11), team_start(player_idx >= 11) + 11, -1),
                radius as int,
            ),
    {
        let lo: usize = if player_idx < 11 { 11 } else { 0 };
        let cands = index_range(lo, lo + 11, usize::MAX);
        proof {
            lemma_range_except_props(lo as int, lo + 11, usize::MAX as int);
            crate::operations::players_ops::lemma_range_except_absent(lo as int, lo + 11, usize::MAX as int, -1);
        }
        self.count_within(player_idx, &cands, radius)
    }
}

/// The indices `lo..hi` in increasing order, without `skip`.
fn index_range(lo: usize, hi: usize, skip: usize) -> (r: Vec<usize>)
    requires
        lo <= hi,
    ensures
        r@ == range_except(lo as int, hi as int, skip as int),
{
    let mut r: Vec<usize> = Vec::new();
    let mut i = lo;
    while i < hi
        invariant
            lo <= i <= hi,
            r@ == range_except(lo as int, i as int, skip as int),
        decreases hi - i,
    {
        if i != skip {
            r.push(i);
        }
        i += 1;
    }
    r
}

/// When as many distinct players were chosen as there are distinct
/// candidates, all from the candidates, every candidate was chosen.
proof fn lemma_all_chosen(cands: Seq<usize>, r: Seq<usize>)
    requires
        r.len() == cands.len(),
        forall|i: int| 0 <= i < r.len() ==> cands.contains(#[trigger] r[i]),
        r.no_duplicates(),
        cands.no_duplicates(),
    ensures
        forall|c: usize| cands.contains(c) ==> r.contains(c),
{
    assert forall|c: usize| cands.contains(c) implies r.contains(c) by {
        if !r.contains(c) {
            let cs = cands.to_set();
            let rs = r.to_set();
            assert(rs.subset_of(cs.remove(c))) by {
                assert forall|x: usize| rs.contains(x) implies cs.remove(c).contains(x) by {
                    let i = choose|i: int| 0 <= i < r.len() && r[i] == x;
                    assert(cands.contains(r[i]));
                }
            }
            cands.unique_seq_to_set();
            r.unique_seq_to_set();
            vstd::set_lib::lemma_len_subset(rs, cs.remove(c));
            assert(cs.contains(c));
        }
    }
}

impl PlayerDistanceMatrix {
    /// The other players within `radius` (0.1 m) of a player, boundary
    /// included, with their squared distances, nearest first, the lower index
    /// first at equal distance.
    pub fn players_within(&self, player_idx: usize, radius: u32) -> (r: Vec<(usize, u128)>)
        requires
            player_idx < 22,
        ensures
            forall|k: int|
                0 <= k < r@.len() ==> {
                    &&& (#[trigger] r@[k]).0 < 22
                    &&& r@[k].1 == self.d(player_idx as int, r@[k].0 as int)
                    &&& self.within(player_idx as int, r@[k].0 as int, radius as int)
                },
            forall|j: int|
                0 <= j < 22 && #[trigger] self.within(player_idx as int, j, radius as int) ==> exists|k: int|
                    0 <= k < r@.len() && r@[k].0 == j,
            forall|a: int, b: int|
                0 <= a < b < r@.len() ==> self.before(player_idx as int, (#[trigger] r@[a]).0 as int, (#[trigger] r@[b]).0 as int),
    {
        assert((radius as u128) * (radius as u128) <= 0xffff_ffff_ffff_ffff_ffff_ffff) by (nonlinear_arith)
            requires radius <= 0xffff_ffff;
        let rr: u128 = radius as u128 * radius as u128;
        let ghost me = player_idx as int;
        // the players within reach, in increasing order
        let mut cands: Vec<usize> = Vec::new();
        for j in 0..22usize
            invariant
                player_idx < 22,
                me == player_idx as int,
                rr == radius * radius,
                forall|n: int| 0 <= n < cands@.len() ==> #[trigger] cands@[n] < j,
                forall|n: int| 0 <= n < cands@.len() ==> self.within(me, #[trigger] cands@[n] as int, radius as int),
                forall|a: int, b: int| 0 <= a < b < cands@.len() ==> #[trigger] cands@[a] < #[trigger] cands@[b],
                forall|x: int| 0 <= x < j && self.within(me, x, radius as int) ==> cands@.contains(x as usize),
                cands@.len() <= j,
        {
            if j != player_idx && self.distances[player_idx][j] <= rr {
                proof {
                    broadcast use vstd::seq_lib::lemma_seq_contains_after_push;

                }
                cands.push(j);
            }
            proof {
                broadcast use vstd::seq_lib::lemma_seq_contains_after_push;

            }
        }
        proof {
            assert(cands@.no_duplicates()) by {
                assert forall|a: int, b: int| 0 <= a < cands@.len() && 0 <= b < cands@.len() && a != b implies cands@[a]
                    != cands@[b] by {
                    if a < b {
                        assert(cands@[a] < cands@[b]);
                    } else {
                        assert(cands@[b] < cands@[a]);
                    }
                }
            }
        }
        // the same players, nearest first
        let n = cands.len();
        let mut order: Vec<usize> = Vec::new();
        let mut chosen = [false; 22];
        while order.len() < n
            invariant
                player_idx < 22,
                me == player_idx as int,
                n == cands@.len(),
                n <= 22,
                order@.len() <= n,
                cands@.no_duplicates(),
                forall|m: int| 0 <= m < cands@.len() ==> #[trigger] cands@[m] < 22,
                forall|m: int| 0 <= m < cands@.len() ==> self.within(me, #[trigger] cands@[m] as int, radius as int),
                forall|x: int| 0 <= x < 22 ==> (#[trigger] chosen@[x] <==> order@.contains(x as usize)),
                forall|i: int| 0 <= i < order@.len() ==> cands@.contains(#[trigger] order@[i]),
                forall|a: int, b: int|
                    0 <= a < b < order@.len() ==> self.before(me, #[trigger] order@[a] as int, #[trigger] order@[b] as int),
                forall|c: usize, i: int|
                    #![trigger cands@.contains(c), order@[i]]
                    cands@.contains(c) && !order@.contains(c) && 0 <= i < order@.len() ==> self.before(
                        me,
                        order@[i] as int,
                        c as int,
                    ),
            decreases n - order@.len(),
        {
            proof {
                assert forall|a: int, b: int| 0 <= a < b < cands@.len() implies #[trigger] cands@[a] != #[trigger] cands@[b] by {
                }
                lemma_unchosen_exists(cands@, order@);
            }
            let mut best: usize = 0;
            let mut best_d: u128 = 0;
            let mut found = false;
            for k in 0..n
                invariant
                    player_idx < 22,
                    me == player_idx as int,
                    n == cands@.len(),
                    forall|m: int| 0 <= m < cands@.len() ==> #[trigger] cands@[m] < 22,
                    forall|x: int| 0 <= x < 22 ==> (#[trigger] chosen@[x] <==> order@.contains(x as usize)),
                    found ==> best < 22 && cands@.contains(best) && !order@.contains(best) && best_d == self.d(me, best as int),
                    found ==> forall|kk: int|
                        0 <= kk < k && !order@.contains(#[trigger] cands@[kk]) ==> cands@[kk] == best || self.before(
                            me,
                            best as int,
                            cands@[kk] as int,
                        ),
                    !found ==> forall|kk: int| 0 <= kk < k ==> order@.contains(#[trigger] cands@[kk]),
            {
                let c = cands[k];
                if !chosen[c] {
                    let d = self.distances[player_idx][c];
                    if !found || d < best_d || (d == best_d && c < best) {
                        best = c;
                        best_d = d;
                        found = true;
                    }
                }
            }
            proof {
                assert(found) by {
                    if !found {
                        let c = choose|c: usize| cands@.contains(c) && !order@.contains(c);
                        let kk = choose|kk: int| 0 <= kk < cands@.len() && cands@[kk] == c;
                    }
                }
                assert forall|c: usize| cands@.contains(c) && !order@.contains(c) implies c == best || self.before(
                    me,
                    best as int,
                    c as int,
                ) by {
                    let kk = choose|kk: int| 0 <= kk < cands@.len() && cands@[kk] == c;
                }
            }
            let ghost old_order = order@;
            let ghost old_chosen = chosen@;
            order.push(best);
            chosen[best] = true;
            proof {
                broadcast use vstd::seq_lib::lemma_seq_contains_after_push;

                assert forall|x: int| 0 <= x < 22 implies (#[trigger] chosen@[x] <==> order@.contains(x as usize)) by {
                    if x != best {
                        assert(chosen@[x] == old_chosen[x]);
                    }
                }
                assert forall|c: usize, i: int|
                    #![trigger cands@.contains(c), order@[i]]
                    cands@.contains(c) && !order@.contains(c) && 0 <= i < order@.len() implies self.before(
                    me,
                    order@[i] as int,
                    c as int,
                ) by {
                    if i < old_order.len() {
                        assert(order@[i] == old_order[i]);
                    }
                }
                assert forall|a: int, b: int|
                    0 <= a < b < order@.len() implies self.before(me, #[trigger] order@[a] as int, #[trigger] order@[b] as int) by {
                    assert(order@[a] == old_order[a]);
                    if b < old_order.len() {
                        assert(order@[b] == old_order[b]);
                    }
                }
                assert forall|i: int| 0 <= i < order@.len() implies cands@.contains(#[trigger] order@[i]) by {
                    if i < old_order.len() {
                        assert(order@[i] == old_order[i]);
                    }
                }
            }
        }
        proof {
            assert(order@.no_duplicates()) by {
                assert forall|a: int, b: int| 0 <= a < order@.len() && 0 <= b < order@.len() && a != b implies order@[a]
                    != order@[b] by {
                    if a < b {
                        assert(self.before(me, order@[a] as int, order@[b] as int));
                    } else {
                        assert(self.before(me, order@[b] as int, order@[a] as int));
                    }
                }
            }
            lemma_all_chosen(cands@, order@);
        }
        // with the distances
        let mut result: Vec<(usize, u128)> = Vec::new();
        for k in 0..n
            invariant
                player_idx < 22,
                me == player_idx as int,
                n == order@.len(),
                result@.len() == k,
                forall|m: int| 0 <= m < order@.len() ==> cands@.contains(#[trigger] order@[m]),
                forall|m: int| 0 <= m < cands@.len() ==> #[trigger] cands@[m] < 22,
                forall|m: int| 0 <= m < k ==> (#[trigger] result@[m]).0 == order@[m] && result@[m].1 == self.d(
                    me,
                    order@[m] as int,
                ),
        {
            let j = order[k];
            proof {
                let i0 = choose|i0: int| 0 <= i0 < cands@.len() && cands@[i0] == j;
            }
            result.push((j, self.distances[player_idx][j]));
        }
        proof {
            assert forall|k: int| 0 <= k < result@.len() implies {
                &&& (#[trigger] result@[k]).0 < 22
                &&& result@[k].1 == self.d(me, result@[k].0 as int)
                &&& self.within(me, result@[k].0 as int, radius as int)
            } by {
                let i0 = choose|i0: int| 0 <= i0 < cands@.len() && cands@[i0] == order@[k];
            }
            assert forall|j: int| 0 <= j < 22 && #[trigger] self.within(me, j, radius as int) implies exists|k: int|
                0 <= k < result@.len() && result@[k].0 == j by {
                assert(cands@.contains(j as usize));
                assert(order@.contains(j as usize));
                let k = choose|k: int| 0 <= k < order@.len() && order@[k] == j as usize;
                assert(result@[k].0 == j);
            }
            assert forall|a: int, b: int| 0 <= a < b < result@.len() implies self.before(
                me,
                (#[trigger] result@[a]).0 as int,
                (#[trigger] result@[b]).0 as int,
            ) by {
                assert(result@[a].0 == order@[a] && result@[b].0 == order@[b]);
            }
        }
        result
    }
}

} // verus!
