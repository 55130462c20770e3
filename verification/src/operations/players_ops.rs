//! Queries on a player's teammates and opponents.
//!
//! Players 0-10 are the home team, 11-21 the away team.
use vstd::prelude::*;
use crate::geometry::{Coord10, dist_sq, distance_sq};

verus! {

/// The indices `lo..hi` in increasing order, without `skip`.
pub open spec fn range_except(lo: int, hi: int, skip: int) -> Seq<usize>
    decreases hi - lo,
{
    if hi <= lo {
        Seq::empty()
    } else {
        let r = range_except(lo, hi - 1, skip);
        if hi - 1 == skip {
            r
        } else {
            r.push((hi - 1) as usize)
        }
    }
}

/// First index of the team of a player: 0 for home players (0-10), 11 otherwise.
pub open spec fn team_start(is_home: bool) -> int {
    if is_home { 0 } else { 11 }
}

/// Whether player `a` comes before player `b` in order of distance from the
/// point `origin`, the lower index first at equal distance.
pub open spec fn nearer(pos: Seq<Coord10>, origin: Coord10, a: int, b: int) -> bool {
    let da = dist_sq(origin, pos[a]);
    let db = dist_sq(origin, pos[b]);
    da < db || (da == db && a < b)
}

/// Whether player `a` comes before player `b` in order of distance from `me`,
/// the lower index first at equal distance.
pub open spec fn closer(pos: Seq<Coord10>, me: int, a: int, b: int) -> bool {
    nearer(pos, pos[me], a, b)
}

/// Number of players in `cands` closer to `me` than `radius` (0.1 m), strictly.
pub open spec fn count_within(pos: Seq<Coord10>, me: int, cands: Seq<usize>, radius: int) -> nat
    decreases cands.len(),
{
    if cands.len() == 0 {
        0
    } else {
        count_within(pos, me, cands.drop_last(), radius) + if dist_sq(pos[me], pos[cands.last() as int])
            < radius * radius {
            1nat
        } else {
            0nat
        }
    }
}

/// `r` holds the `k` players of `cands` nearest to the point `origin` (all of
/// them if there are fewer), nearest first, the lower index first at equal
/// distance.
pub open spec fn is_nearest_k_to(
    pos: Seq<Coord10>,
    origin: Coord10,
    cands: Seq<usize>,
    k: int,
    r: Seq<usize>,
) -> bool {
    &&& r.len() == if k < cands.len() { k } else { cands.len() as int }
    &&& forall|i: int| 0 <= i < r.len() ==> cands.contains(#[trigger] r[i])
    &&& forall|i: int, j: int|
        0 <= i < j < r.len() ==> nearer(pos, origin, #[trigger] r[i] as int, #[trigger] r[j] as int)
    &&& forall|c: usize, i: int|
        #![trigger cands.contains(c), r[i]]
        cands.contains(c) && !r.contains(c) && 0 <= i < r.len() ==> nearer(
            pos,
            origin,
            r[i] as int,
            c as int,
        )
}

/// `r` holds the `k` players of `cands` nearest to `me` (all of them if there
/// are fewer), nearest first, the lower index first at equal distance.
pub open spec fn is_nearest_k(pos: Seq<Coord10>, me: int, cands: Seq<usize>, k: int, r: Seq<usize>) -> bool {
    is_nearest_k_to(pos, pos[me], cands, k, r)
}

/// Queries on the other players, seen from one player.
pub struct PlayersOps<'a> {
    player_idx: usize,
    positions: &'a [Coord10; 22],
    ball_owner: Option<u8>,
}

impl<'a> PlayersOps<'a> {
    pub closed spec fn me(self) -> int {
        self.player_idx as int
    }

    pub closed spec fn pos(self) -> Seq<Coord10> {
        self.positions@
    }

    pub closed spec fn owner(self) -> Option<u8> {
        self.ball_owner
    }

    /// Whether the player is in the home team.
    pub open spec fn home(self) -> bool {
        self.me() < 11
    }

    /// Teammates of the player, in increasing order.
    pub open spec fn teammates(self) -> Seq<usize> {
        range_except(team_start(self.home()), team_start(self.home()) + 11, self.me())
    }

    /// Opponents of the player, in increasing order.
    pub open spec fn opponents(self) -> Seq<usize> {
        range_except(team_start(!self.home()), team_start(!self.home()) + 11, -1)
    }

    pub fn new(player_idx: usize, positions: &'a [Coord10; 22], ball_owner: Option<u8>) -> (r:
        PlayersOps<'a>)
        ensures
            r.me() == player_idx,
            r.pos() == positions@,
            r.owner() == ball_owner,
    {
        PlayersOps { player_idx, positions, ball_owner }
    }

    /// Teammates of the player (its own team without itself), in increasing order.
    pub fn teammate_indices(&self) -> (r: Vec<usize>)
        ensures
            r@ == self.teammates(),
    {
        let lo: usize = if self.player_idx < 11 { 0 } else { 11 };
        range_vec(lo, lo + 11, self.player_idx)
    }

    /// The players of the other team, in increasing order.
    pub fn opponent_indices(&self) -> (r: Vec<usize>)
        ensures
            r@ == self.opponents(),
    {
        let lo: usize = if self.player_idx < 11 { 11 } else { 0 };
        let r = range_vec(lo, lo + 11, usize::MAX);
        proof {
            lemma_range_except_absent(lo as int, lo + 11, usize::MAX as int, -1);
        }
        r
    }

    /// The teammate nearest to the player, the lowest index at equal distance.
    pub fn nearest_teammate(&self) -> (r: Option<usize>)
        requires
            self.me() < 22,
        ensures
            r.is_some(),
            is_nearest_k(self.pos(), self.me(), self.teammates(), 1, seq![r.unwrap()]),
    {
        let cands = self.teammate_indices();
        proof {
            lemma_range_except_props(team_start(self.home()), team_start(self.home()) + 11, self.me());
        }
        let r = nearest_k(self.positions, self.positions[self.player_idx], &cands, 1);
        proof {
            assert(seq![r@[0]] =~= r@);
        }
        Some(r[0])
    }

    /// The opponent nearest to the player, the lowest index at equal distance.
    pub fn nearest_opponent(&self) -> (r: Option<usize>)
        requires
            self.me() < 22,
        ensures
            r.is_some(),
            is_nearest_k(self.pos(), self.me(), self.opponents(), 1, seq![r.unwrap()]),
    {
        let cands = self.opponent_indices();
        proof {
            lemma_range_except_props(team_start(!self.home()), team_start(!self.home()) + 11, -1);
        }
        let r = nearest_k(self.positions, self.positions[self.player_idx], &cands, 1);
        proof {
            assert(seq![r@[0]] =~= r@);
        }
        Some(r[0])
    }

    /// The `n` teammates nearest to the player (all of them if fewer), nearest
    /// first, the lower index first at equal distance.
    pub fn nearest_teammates(&self, n: usize) -> (r: Vec<usize>)
        requires
            self.me() < 22,
        ensures
            is_nearest_k(self.pos(), self.me(), self.teammates(), n as int, r@),
    {
        let cands = self.teammate_indices();
        proof {
            lemma_range_except_props(team_start(self.home()), team_start(self.home()) + 11, self.me());
        }
        nearest_k(self.positions, self.positions[self.player_idx], &cands, n)
    }

    /// The `n` opponents nearest to the player (all of them if fewer), nearest
    /// first, the lower index first at equal distance.
    pub fn nearest_opponents(&self, n: usize) -> (r: Vec<usize>)
        requires
            self.me() < 22,
        ensures
            is_nearest_k(self.pos(), self.me(), self.opponents(), n as int, r@),
    {
        let cands = self.opponent_indices();
        proof {
            lemma_range_except_props(team_start(!self.home()), team_start(!self.home()) + 11, -1);
        }
        nearest_k(self.positions, self.positions[self.player_idx], &cands, n)
    }

    /// Whether an opponent has the ball less than 3 m away from the player.
    pub fn opponent_with_ball_nearby(&self) -> (r: bool)
        requires
            self.me() < 22,
            self.owner() matches Some(o) ==> ((if self.home() { o >= 11 } else { o < 11 }) ==> o < 22),
        ensures
            r == (self.owner() matches Some(o) && (if self.home() { o >= 11 } else { o < 11 })
                && dist_sq(self.pos()[self.me()], self.pos()[o as int]) < 900),
    {
        if let Some(owner) = self.ball_owner {
            let owner_idx = owner as usize;
            let owner_is_opponent = if self.player_idx < 11 {
                owner_idx >= 11
            } else {
                owner_idx < 11
            };
            if owner_is_opponent {
                let d = distance_sq(self.positions[self.player_idx], self.positions[owner_idx]);
                return d < 900;
            }
        }
        false
    }

    /// Number of opponents strictly closer than `radius` (0.1 m) to the player.
    pub fn opponents_within(&self, radius: u32) -> (r: usize)
        requires
            self.me() < 22,
        ensures
            r == count_within(self.pos(), self.me(), self.opponents(), radius as int),
    {
        let cands = self.opponent_indices();
        proof {
            lemma_range_except_props(team_start(!self.home()), team_start(!self.home()) + 11, -1);
        }
        count_near(self.positions, self.player_idx, &cands, radius)
    }

    /// Number of teammates strictly closer than `radius` (0.1 m) to the player.
    pub fn teammates_within(&self, radius: u32) -> (r: usize)
        requires
            self.me() < 22,
        ensures
            r == count_within(self.pos(), self.me(), self.teammates(), radius as int),
    {
        let cands = self.teammate_indices();
        proof {
            lemma_range_except_props(team_start(self.home()), team_start(self.home()) + 11, self.me());
        }
        count_near(self.positions, self.player_idx, &cands, radius)
    }
}

proof fn lemma_range_except_len(lo: int, hi: int, skip: int)
    requires
        lo <= hi,
    ensures
        range_except(lo, hi, skip).len() <= hi - lo,
    decreases hi - lo,
{
    if hi > lo {
        lemma_range_except_len(lo, hi - 1, skip);
    }
}

/// The indices of `range_except` lie in the range, are increasing, and are
/// exactly the range without `skip`.
pub proof fn lemma_range_except_props(lo: int, hi: int, skip: int)
    requires
        0 <= lo <= hi <= 0x1_0000,
    ensures
        forall|i: int| 0 <= i < range_except(lo, hi, skip).len() ==> {
            let v = #[trigger] range_except(lo, hi, skip)[i];
            lo <= v < hi && v != skip
        },
        forall|i: int, j: int|
            0 <= i < j < range_except(lo, hi, skip).len() ==> #[trigger] range_except(lo, hi, skip)[i]
                < #[trigger] range_except(lo, hi, skip)[j],
        forall|v: int| lo <= v < hi && v != skip ==> #[trigger] range_except(lo, hi, skip).contains(v as usize),
        (lo <= skip < hi) ==> range_except(lo, hi, skip).len() == hi - lo - 1,
        !(lo <= skip < hi) ==> range_except(lo, hi, skip).len() == hi - lo,
    decreases hi - lo,
{
    if hi > lo {
        lemma_range_except_props(lo, hi - 1, skip);
        let r = range_except(lo, hi - 1, skip);
        let s = range_except(lo, hi, skip);
        if hi - 1 != skip {
            assert(s == r.push((hi - 1) as usize));
            assert forall|i: int| 0 <= i < r.len() implies s[i] == r[i] by {}
            assert forall|i: int| 0 <= i < s.len() implies {
                let v = #[trigger] s[i];
                lo <= v < hi && v != skip
            } by {
                if i < r.len() {
                    assert(s[i] == r[i]);
                }
            }
            assert forall|i: int, j: int| 0 <= i < j < s.len() implies #[trigger] s[i] < #[trigger] s[j] by {
                assert(s[i] == r[i]);
                if j < r.len() {
                    assert(s[j] == r[j]);
                }
            }
            assert forall|v: int| lo <= v < hi && v != skip implies #[trigger] s.contains(v as usize) by {
                if v == hi - 1 {
                    assert(s[s.len() - 1] == v as usize);
                } else {
                    assert(r.contains(v as usize));
                    let k = choose|k: int| 0 <= k < r.len() && r[k] == v as usize;
                    assert(s[k] == v as usize);
                }
            }
        }
    }
}

pub proof fn lemma_range_except_absent(lo: int, hi: int, skip: int, other: int)
    requires
        lo <= hi,
        !(lo <= skip < hi),
        !(lo <= other < hi),
    ensures
        range_except(lo, hi, skip) == range_except(lo, hi, other),
    decreases hi - lo,
{
    if hi > lo {
        lemma_range_except_absent(lo, hi - 1, skip, other);
    }
}

/// The indices `lo..hi` in increasing order, without `skip`.
fn range_vec(lo: usize, hi: usize, skip: usize) -> (r: Vec<usize>)
    requires
        lo <= hi,
    ensures
        r@ == range_except(lo as int, hi as int, skip as int),
{
    let mut r: Vec<usize> = Vec::new();
    let mut i = lo;
    while i < hi
        invariant
            lo <= i <= hi,
            r@ == range_except(lo as int, i as int, skip as int),
        decreases hi - i,
    {
        if i != skip {
            r.push(i);
        }
        i += 1;
    }
    r
}

/// Number of `cands` strictly closer than `radius` (0.1 m) to `me`.
fn count_near(positions: &[Coord10; 22], me: usize, cands: &Vec<usize>, radius: u32) -> (r: usize)
    requires
        me < 22,
        forall|i: int| 0 <= i < cands@.len() ==> #[trigger] cands@[i] < 22,
        cands@.len() <= 22,
    ensures
        r == count_within(positions@, me as int, cands@, radius as int),
{
    let mut count: usize = 0;
    let n = cands.len();
    assert((radius as u128) * (radius as u128) <= 0xffff_ffff_ffff_ffff_ffff_ffff) by (nonlinear_arith)
        requires radius <= 0xffff_ffff;
    let rr: u128 = radius as u128 * radius as u128;
    for k in 0..n
        invariant
            n == cands@.len(),
            n <= 22,
            me < 22,
            rr == radius * radius,
            forall|i: int| 0 <= i < cands@.len() ==> #[trigger] cands@[i] < 22,
            count == count_within(positions@, me as int, cands@.take(k as int), radius as int),
            count <= k,
    {
        let c = cands[k];
        let d = distance_sq(positions[me], positions[c]);
        proof {
            assert(cands@.take(k + 1).drop_last() =~= cands@.take(k as int));
            assert(cands@.take(k + 1).last() == c);
        }
        if d < rr {
            count += 1;
        }
    }
    proof {
        assert(cands@.take(n as int) =~= cands@);
    }
    count
}

/// The `k` candidates nearest to the point `origin` (all if fewer), nearest
/// first, the lower index first at equal distance.
pub(crate) fn nearest_k(positions: &[Coord10; 22], origin: Coord10, cands: &Vec<usize>, k: usize) -> (r: Vec<usize>)
    requires
        forall|i: int| 0 <= i < cands@.len() ==> #[trigger] cands@[i] < 22,
        forall|i: int, j: int| 0 <= i < j < cands@.len() ==> #[trigger] cands@[i] != #[trigger] cands@[j],
        cands@.len() <= 22,
    ensures
        is_nearest_k_to(positions@, origin, cands@, k as int, r@),
{
    let n = cands.len();
    let total = if k < n { k } else { n };
    let mut r: Vec<usize> = Vec::new();
    let mut chosen = [false; 22];
    let ghost pos = positions@;
    while r.len() < total
        invariant
            n == cands@.len(),
            n <= 22,
            total <= n,
            total == if k < n { k } else { n },
            r@.len() <= total,
            forall|i: int| 0 <= i < cands@.len() ==> #[trigger] cands@[i] < 22,
            forall|i: int, j: int| 0 <= i < j < cands@.len() ==> #[trigger] cands@[i] != #[trigger] cands@[j],
            forall|x: int| 0 <= x < 22 ==> (#[trigger] chosen@[x] <==> r@.contains(x as usize)),
            forall|i: int| 0 <= i < r@.len() ==> cands@.contains(#[trigger] r@[i]),
            forall|i: int, j: int|
                0 <= i < j < r@.len() ==> nearer(pos, origin, #[trigger] r@[i] as int, #[trigger] r@[j] as int),
            forall|c: usize, i: int|
                #![trigger cands@.contains(c), r@[i]]
                cands@.contains(c) && !r@.contains(c) && 0 <= i < r@.len() ==> nearer(
                    pos,
                    origin,
                    r@[i] as int,
                    c as int,
                ),
            pos == positions@,
        decreases total - r@.len(),
    {
        // some candidate is not yet chosen: the chosen ones are distinct candidates
        proof {
            lemma_unchosen_exists(cands@, r@);
        }
        let mut best: usize = 0;
        let mut best_d: u128 = 0;
        let mut found = false;
        for j in 0..n
            invariant
                n == cands@.len(),
                forall|i: int| 0 <= i < cands@.len() ==> #[trigger] cands@[i] < 22,
                forall|x: int| 0 <= x < 22 ==> (#[trigger] chosen@[x] <==> r@.contains(x as usize)),
                found ==> best < 22 && cands@.contains(best) && !r@.contains(best)
                    && best_d == dist_sq(origin, pos[best as int]),
                found ==> forall|jj: int|
                    0 <= jj < j && !r@.contains(#[trigger] cands@[jj]) ==> cands@[jj] == best || nearer(
                        pos,
                        origin,
                        best as int,
                        cands@[jj] as int,
                    ),
                !found ==> forall|jj: int| 0 <= jj < j ==> r@.contains(#[trigger] cands@[jj]),
                pos == positions@,
        {
            let c = cands[j];
            if !chosen[c] {
                let d = distance_sq(origin, positions[c]);
                if !found || d < best_d || (d == best_d && c < best) {
                    best = c;
                    best_d = d;
                    found = true;
                }
            }
        }
        proof {
            assert(found) by {
                if !found {
                    let c = choose|c: usize| cands@.contains(c) && !r@.contains(c);
                    let jj = choose|jj: int| 0 <= jj < cands@.len() && cands@[jj] == c;
                }
            }
            assert forall|c: usize| cands@.contains(c) && !r@.contains(c) implies c == best || nearer(
                pos,
                origin,
                best as int,
                c as int,
            ) by {
                let jj = choose|jj: int| 0 <= jj < cands@.len() && cands@[jj] == c;
            }
        }
        let ghost old_r = r@;
        let ghost old_chosen = chosen@;
        r.push(best);
        chosen[best] = true;
        proof {
            assert forall|x: int| 0 <= x < 22 implies (#[trigger] chosen@[x] <==> r@.contains(x as usize)) by {
                if x == best {
                    assert(r@[r@.len() - 1] == best);
                } else {
                    assert(chosen@[x] == old_chosen[x]);
                    assert(old_chosen[x] <==> old_r.contains(x as usize));
                }
                if r@.contains(x as usize) && x != best {
                    let i = choose|i: int| 0 <= i < r@.len() && r@[i] == x as usize;
                    assert(old_r[i] == x as usize);
                }
                if old_r.contains(x as usize) {
                    let i = choose|i: int| 0 <= i < old_r.len() && old_r[i] == x as usize;
                    assert(r@[i] == x as usize);
                }
            }
            assert forall|c: usize, i: int|
                #![trigger cands@.contains(c), r@[i]]
                cands@.contains(c) && !r@.contains(c) && 0 <= i < r@.len() implies nearer(
                pos,
                origin,
                r@[i] as int,
                c as int,
            ) by {
                assert(!old_r.contains(c)) by {
                    if old_r.contains(c) {
                        let ii = choose|ii: int| 0 <= ii < old_r.len() && old_r[ii] == c;
                        assert(r@[ii] == c);
                    }
                }
                assert(c != best) by {
                    assert(r@[r@.len() - 1] == best);
                }
                if i < old_r.len() {
                    assert(r@[i] == old_r[i]);
                }
            }
            assert forall|i: int, j: int|
                0 <= i < j < r@.len() implies nearer(pos, origin, #[trigger] r@[i] as int, #[trigger] r@[j] as int) by {
                if j == r@.len() - 1 {
                    assert(r@[i] == old_r[i]);
                    assert(cands@.contains(best) && !old_r.contains(best));
                } else {
                    assert(r@[i] == old_r[i]);
                    assert(r@[j] == old_r[j]);
                }
            }
            assert forall|i: int| 0 <= i < r@.len() implies cands@.contains(#[trigger] r@[i]) by {
                if i < old_r.len() {
                    assert(r@[i] == old_r[i]);
                }
            }
        }
    }
    r
}

pub proof fn lemma_unchosen_exists(cands: Seq<usize>, r: Seq<usize>)
    requires
        r.len() < cands.len(),
        forall|i: int| 0 <= i < r.len() ==> cands.contains(#[trigger] r[i]),
        forall|i: int, j: int| 0 <= i < j < cands.len() ==> #[trigger] cands[i] != #[trigger] cands[j],
    ensures
        exists|c: usize| cands.contains(c) && !r.contains(c),
{
    if forall|c: usize| cands.contains(c) ==> r.contains(c) {
        // every candidate is among the fewer chosen ones: impossible for distinct candidates
        let cs = cands.to_set();
        let rs = r.to_set();
        assert(cs.subset_of(rs)) by {
            assert forall|c: usize| cs.contains(c) implies rs.contains(c) by {
                assert(cands.contains(c));
            }
        }
        cands.unique_seq_to_set();
        r.lemma_cardinality_of_set();
        vstd::set_lib::lemma_len_subset(cs, rs);
        assert(false);
    }
}

} // verus!
