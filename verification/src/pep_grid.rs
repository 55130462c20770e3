//! Five-channel positioning grid.
//!
//! The pitch is split into five vertical lanes (left wing, left half-space,
//! centre, right half-space, right wing). The grid records which players stand
//! in each lane and suggests moves that relieve an overcrowded lane.
use vstd::prelude::*;
use crate::text::{decimal, push_decimal};
use crate::geometry::Coord10;

verus! {

/// Vertical lane of the pitch, from the left touchline to the right one.
#[derive(Debug, Clone, Copy, PartialEq, Eq, Hash, Structural)]
pub enum Channel {
    LeftWing,
    LeftHalfSpace,
    Center,
    RightHalfSpace,
    RightWing,
}

/// Position of a channel from the left, 0 to 4.
pub open spec fn channel_index(c: Channel) -> int {
    match c {
        Channel::LeftWing => 0,
        Channel::LeftHalfSpace => 1,
        Channel::Center => 2,
        Channel::RightHalfSpace => 3,
        Channel::RightWing => 4,
    }
}

/// The channel at a position from the left, if there is one.
pub open spec fn channel_at(i: int) -> Option<Channel> {
    if i == 0 {
        Some(Channel::LeftWing)
    } else if i == 1 {
        Some(Channel::LeftHalfSpace)
    } else if i == 2 {
        Some(Channel::Center)
    } else if i == 3 {
        Some(Channel::RightHalfSpace)
    } else if i == 4 {
        Some(Channel::RightWing)
    } else {
        None
    }
}

/// Channels and their positions correspond one to one.
pub proof fn lemma_channel_index_roundtrip(c: Channel)
    ensures
        0 <= channel_index(c) < 5,
        channel_at(channel_index(c)) == Some(c),
{
}

/// Lane (0 to 4) of a lateral position in tenths of a metre.
pub open spec fn lane_of(y: int) -> int {
    if y < 0 {
        0
    } else if y / 136 > 4 {
        4
    } else {
        y / 136
    }
}

/// Depth zone of a position along the pitch in tenths of a metre, seen from
/// the home goal: quarters of the 105 m length.
pub open spec fn depth_at(x: int) -> ZoneDepth {
    if 4 * x < 1050 {
        ZoneDepth::Defense
    } else if 2 * x < 1050 {
        ZoneDepth::MidfieldLow
    } else if 4 * x < 3150 {
        ZoneDepth::MidfieldHigh
    } else {
        ZoneDepth::Attack
    }
}

/// A position along the pitch seen from the team's own goal.
pub open spec fn own_x(x: int, is_home_team: bool) -> int {
    if is_home_team {
        x
    } else {
        1050 - x
    }
}

/// The channel of a lateral position.
pub open spec fn lane_channel(y: int) -> Channel {
    channel_at(lane_of(y)).unwrap()
}

impl Channel {
    /// Position of the channel from the left (0 to 4).
    pub fn index(&self) -> (r: usize)
        ensures
            r == channel_index(*self),
    {
        match self {
            Channel::LeftWing => 0,
            Channel::LeftHalfSpace => 1,
            Channel::Center => 2,
            Channel::RightHalfSpace => 3,
            Channel::RightWing => 4,
        }
    }

    /// The channel at a position from the left; `None` past the right wing.
    pub fn from_index(idx: usize) -> (r: Option<Channel>)
        ensures
            r == channel_at(idx as int),
            r.is_some() <==> idx < 5,
    {
        match idx {
            0 => Some(Channel::LeftWing),
            1 => Some(Channel::LeftHalfSpace),
            2 => Some(Channel::Center),
            3 => Some(Channel::RightHalfSpace),
            4 => Some(Channel::RightWing),
            _ => None,
        }
    }

    /// The neighbouring channels, left then right (`None` at a touchline).
    pub fn adjacent(&self) -> (r: (Option<Channel>, Option<Channel>))
        ensures
            r.0 == channel_at(channel_index(*self) - 1),
            r.1 == channel_at(channel_index(*self) + 1),
    {
        let idx = self.index();
        let left = if idx > 0 {
            Channel::from_index(idx - 1)
        } else {
            None
        };
        let right = Channel::from_index(idx + 1);
        (left, right)
    }

    /// The channel of a lateral position in tenths of a metre: the 68 m width
    /// is cut into five lanes of 13.6 m; a position left of the touchline
    /// counts as the left wing, one right of the last boundary as the right
    /// wing.
    pub fn from_y_position(y: i32) -> (r: Channel)
        ensures
            channel_index(r) == lane_of(y as int),
    {
        let idx: i32 = if y < 0 {
            0
        } else if y / 136 > 4 {
            4
        } else {
            y / 136
        };
        match idx {
            0 => Channel::LeftWing,
            1 => Channel::LeftHalfSpace,
            2 => Channel::Center,
            3 => Channel::RightHalfSpace,
            _ => Channel::RightWing,
        }
    }

    /// Lateral centre of the channel in millimetres.
    pub fn center_y(&self) -> (r: i32)
        ensures
            r == 13600 * channel_index(*self) + 6800,
    {
        let i = self.index() as i32;
        13600 * i + 6800
    }

    /// Whether the channel is one of the two half-spaces.
    pub fn is_half_space(&self) -> (r: bool)
        ensures
            r <==> (*self == Channel::LeftHalfSpace || *self == Channel::RightHalfSpace),
    {
        match self {
            Channel::LeftHalfSpace | Channel::RightHalfSpace => true,
            _ => false,
        }
    }

    /// Whether the channel is one of the two wings.
    pub fn is_wing(&self) -> (r: bool)
        ensures
            r <==> (*self == Channel::LeftWing || *self == Channel::RightWing),
    {
        match self {
            Channel::LeftWing | Channel::RightWing => true,
            _ => false,
        }
    }
}

/// Horizontal depth zone of the pitch, from the team's own goal forward.
#[derive(Debug, Clone, Copy, PartialEq, Eq, Hash, Structural)]
pub enum ZoneDepth {
    Defense,
    MidfieldLow,
    MidfieldHigh,
    Attack,
}

/// Rank of a depth zone from the own goal, 0 to 3.
pub open spec fn depth_rank(d: ZoneDepth) -> int {
    match d {
        ZoneDepth::Defense => 0,
        ZoneDepth::MidfieldLow => 1,
        ZoneDepth::MidfieldHigh => 2,
        ZoneDepth::Attack => 3,
    }
}

impl ZoneDepth {
    /// The depth zone of a position along the pitch in tenths of a metre;
    /// an away team's positions are mirrored first.
    pub fn from_x_position(x: i32, is_home_team: bool) -> (r: ZoneDepth)
        ensures
            r == depth_at(own_x(x as int, is_home_team)),
    {
        let xo: i64 = if is_home_team {
            x as i64
        } else {
            1050 - x as i64
        };
        if 4 * xo < 1050 {
            ZoneDepth::Defense
        } else if 2 * xo < 1050 {
            ZoneDepth::MidfieldLow
        } else if 4 * xo < 3150 {
            ZoneDepth::MidfieldHigh
        } else {
            ZoneDepth::Attack
        }
    }

    /// Centre of the zone along the pitch in millimetres, from the home goal.
    pub fn center_x(&self) -> (r: i32)
        ensures
            r == 26250 * depth_rank(*self) + 13125,
    {
        match self {
            ZoneDepth::Defense => 13125,
            ZoneDepth::MidfieldLow => 39375,
            ZoneDepth::MidfieldHigh => 65625,
            ZoneDepth::Attack => 91875,
        }
    }

    /// Whether the zone lies in the opponent's half.
    pub fn is_attacking(&self) -> (r: bool)
        ensures
            r <==> (*self == ZoneDepth::MidfieldHigh || *self == ZoneDepth::Attack),
    {
        match self {
            ZoneDepth::MidfieldHigh | ZoneDepth::Attack => true,
            _ => false,
        }
    }
}

/// A cell of the grid: a channel at a depth.
#[derive(Debug, Clone, Copy, PartialEq, Eq, Hash, Structural)]
pub struct GridCell {
    pub channel: Channel,
    pub depth: ZoneDepth,
}

impl GridCell {
    pub fn new(channel: Channel, depth: ZoneDepth) -> (r: GridCell)
        ensures
            r.channel == channel,
            r.depth == depth,
    {
        GridCell { channel, depth }
    }

    /// The cell of a position, seen from the team's own goal.
    pub fn from_position(pos: Coord10, is_home_team: bool) -> (r: GridCell)
        ensures
            r.channel == lane_channel(pos.y as int),
            r.depth == depth_at(own_x(pos.x as int, is_home_team)),
    {
        let channel = Channel::from_y_position(pos.y);
        proof {
            lemma_channel_index_roundtrip(channel);
        }
        GridCell { channel, depth: ZoneDepth::from_x_position(pos.x, is_home_team) }
    }

    /// Centre of the cell in millimetres (along, across); for an away team
    /// the depth is mirrored.
    pub fn center(&self, is_home_team: bool) -> (r: (i32, i32))
        ensures
            r.0 == (if is_home_team {
                26250 * depth_rank(self.depth) + 13125
            } else {
                105000 - (26250 * depth_rank(self.depth) + 13125)
            }),
            r.1 == 13600 * channel_index(self.channel) + 6800,
    {
        let cx = self.depth.center_x();
        let x = if is_home_team {
            cx
        } else {
            105000 - cx
        };
        (x, self.channel.center_y())
    }
}

/// Players per channel, with a cap above which a channel counts as overcrowded.
#[derive(Debug, Clone)]
pub struct PepGrid {
    occupants: [Vec<usize>; 5],
    max_per_channel: usize,
    last_update_tick: u64,
}

/// A suggested move: the player, the channel it stands in, the channel to go to.
pub type ChannelMove = (usize, Channel, Channel);

impl PepGrid {
    /// Players standing in the channel at position `i`, in the order they were added.
    pub closed spec fn occ(self, i: int) -> Seq<usize> {
        self.occupants@[i]@
    }

    /// The cap on players per channel.
    pub closed spec fn max(self) -> nat {
        self.max_per_channel as nat
    }

    /// The tick of the last update.
    pub closed spec fn tick(self) -> u64 {
        self.last_update_tick
    }

    /// Number of players in the channel at position `i`.
    pub open spec fn count(self, i: int) -> nat {
        self.occ(i).len()
    }

    /// Whether the channel at position `i` holds more players than the cap.
    pub open spec fn over(self, i: int) -> bool {
        self.count(i) > self.max()
    }

    /// Free places left in a channel (none for a missing neighbour).
    pub open spec fn space(self, c: Option<Channel>) -> nat {
        match c {
            Some(t) => if self.count(channel_index(t)) <= self.max() {
                (self.max() - self.count(channel_index(t))) as nat
            } else {
                0
            },
            None => 0,
        }
    }

    /// An empty grid with a cap of two players per channel.
    pub fn new() -> (g: PepGrid)
        ensures
            forall|i: int| 0 <= i < 5 ==> #[trigger] g.occ(i) == Seq::<usize>::empty(),
            g.max() == 2,
            g.tick() == 0,
    {
        PepGrid {
            occupants: [Vec::new(), Vec::new(), Vec::new(), Vec::new(), Vec::new()],
            max_per_channel: 2,
            last_update_tick: 0,
        }
    }

    /// The same grid with another cap per channel.
    pub fn with_max_per_channel(self, max: usize) -> (g: PepGrid)
        ensures
            forall|i: int| 0 <= i < 5 ==> #[trigger] g.occ(i) == self.occ(i),
            g.max() == max,
            g.tick() == self.tick(),
    {
        let mut s = self;
        s.max_per_channel = max;
        s
    }

    /// Rebuilds the grid from the channel of each player, in the order given,
    /// and records the tick.
    pub fn update_from_channels(&mut self, assignments: &[(usize, Channel)], current_tick: u64)
        ensures
            forall|i: int|
                0 <= i < 5 ==> #[trigger] final(self).occ(i) == players_in(assignments@, i),
            final(self).max() == old(self).max(),
            final(self).tick() == current_tick,
    {
        let mut v0: Vec<usize> = Vec::new();
        let mut v1: Vec<usize> = Vec::new();
        let mut v2: Vec<usize> = Vec::new();
        let mut v3: Vec<usize> = Vec::new();
        let mut v4: Vec<usize> = Vec::new();
        let n = assignments.len();
        for k in 0..n
            invariant
                n == assignments@.len(),
                v0@ == players_in(assignments@.take(k as int), 0),
                v1@ == players_in(assignments@.take(k as int), 1),
                v2@ == players_in(assignments@.take(k as int), 2),
                v3@ == players_in(assignments@.take(k as int), 3),
                v4@ == players_in(assignments@.take(k as int), 4),
        {
            let (p, c) = assignments[k];
            proof {
                assert(assignments@.take(k + 1).drop_last() =~= assignments@.take(k as int));
            }
            match c {
                Channel::LeftWing => v0.push(p),
                Channel::LeftHalfSpace => v1.push(p),
                Channel::Center => v2.push(p),
                Channel::RightHalfSpace => v3.push(p),
                Channel::RightWing => v4.push(p),
            }
        }
        proof {
            assert(assignments@.take(n as int) =~= assignments@);
        }
        self.occupants = [v0, v1, v2, v3, v4];
        self.last_update_tick = current_tick;
    }

    /// Rebuilds the grid from player positions: each listed player that has a
    /// position goes to the channel of its lateral coordinate, in the order
    /// listed; indices without a position are skipped.
    pub fn update_from_positions(
        &mut self,
        positions: &[Coord10],
        player_indices: &[usize],
        current_tick: u64,
    )
        ensures
            forall|i: int|
                0 <= i < 5 ==> #[trigger] final(self).occ(i) == players_in(
                    position_assignments(positions@, player_indices@),
                    i,
                ),
            final(self).max() == old(self).max(),
            final(self).tick() == current_tick,
    {
        let mut assignments: Vec<(usize, Channel)> = Vec::new();
        let n = player_indices.len();
        for k in 0..n
            invariant
                n == player_indices@.len(),
                assignments@ == position_assignments(positions@, player_indices@.take(k as int)),
        {
            let idx = player_indices[k];
            proof {
                assert(player_indices@.take(k + 1).drop_last() =~= player_indices@.take(k as int));
            }
            if idx < positions.len() {
                let c = Channel::from_y_position(positions[idx].y);
                proof {
                    lemma_channel_index_roundtrip(c);
                }
                assignments.push((idx, c));
            }
        }
        proof {
            assert(player_indices@.take(n as int) =~= player_indices@);
        }
        self.update_from_channels(assignments.as_slice(), current_tick);
    }

    /// Number of players in a channel.
    pub fn channel_count(&self, channel: Channel) -> (r: usize)
        ensures
            r == self.count(channel_index(channel)),
    {
        self.occupants[channel.index()].len()
    }

    /// Players standing in a channel.
    pub fn channel_occupants(&self, channel: Channel) -> (r: &[usize])
        ensures
            r@ == self.occ(channel_index(channel)),
    {
        self.occupants[channel.index()].as_slice()
    }

    /// Whether a channel holds more players than the cap.
    pub fn is_overcrowded(&self, channel: Channel) -> (r: bool)
        ensures
            r == self.over(channel_index(channel)),
    {
        self.channel_count(channel) > self.max_per_channel
    }

    /// Tick of the last update.
    pub fn last_update_tick(&self) -> (r: u64)
        ensures
            r == self.tick(),
    {
        self.last_update_tick
    }
}


impl PepGrid {
    /// Suggested moves for the excess players of the channel at position `c`,
    /// the players taken from the back of the channel, the `i`-th of them onward,
    /// with `tl` and `tr` players already sent left and right.
    pub open spec fn moves_from(self, c: int, i: nat, tl: nat, tr: nat) -> Seq<ChannelMove>
        decreases (self.count(c) - self.max()) - i,
    {
        let occ = self.occ(c);
        let excess = self.count(c) - self.max();
        let left = channel_at(c - 1);
        let right = channel_at(c + 1);
        let ls = self.space(left);
        let rs = self.space(right);
        if i >= excess {
            Seq::empty()
        } else {
            let p = occ[occ.len() - 1 - i];
            let from = channel_at(c).unwrap();
            let try_left = (i % 2 == 0 && ls > tl) || rs <= tr;
            if try_left && left.is_some() && tl < ls {
                seq![(p, from, left.unwrap())] + self.moves_from(c, i + 1, tl + 1, tr)
            } else if right.is_some() && tr < rs {
                seq![(p, from, right.unwrap())] + self.moves_from(c, i + 1, tl, tr + 1)
            } else {
                self.moves_from(c, i + 1, tl, tr)
            }
        }
    }

    /// Suggested moves out of the channel at position `c` (none unless it is overcrowded).
    pub open spec fn channel_moves(self, c: int) -> Seq<ChannelMove> {
        if self.over(c) {
            self.moves_from(c, 0, 0, 0)
        } else {
            Seq::empty()
        }
    }

    /// Suggested moves out of the first `k` channels, channel by channel.
    pub open spec fn moves_upto(self, k: int) -> Seq<ChannelMove>
        decreases k,
    {
        if k <= 0 {
            Seq::empty()
        } else {
            self.moves_upto(k - 1) + self.channel_moves(k - 1)
        }
    }

    /// Suggests moves for the players in excess of the cap in each channel.
    ///
    /// Channels are taken from left to right; within a channel the players
    /// last added leave first, alternating between the left and the right
    /// neighbour as long as the neighbour has free places (counted on the
    /// grid as it stands) and falling back on the other side when one is full.
    pub fn resolve_overcrowding(&self) -> (moves: Vec<ChannelMove>)
        ensures
            moves@ == self.moves_upto(5),
    {
        let mut moves: Vec<ChannelMove> = Vec::new();
        for channel_idx in 0..5usize
            invariant
                moves@ == self.moves_upto(channel_idx as int),
        {
            let channel = Channel::from_index(channel_idx).unwrap();
            let occupants = &self.occupants[channel_idx];
            let ghost base = moves@;
            let ghost c = channel_idx as int;
            if occupants.len() <= self.max_per_channel {
                proof {
                    assert(self.moves_upto(c + 1) =~= self.moves_upto(c));
                }
            } else {
                let excess = occupants.len() - self.max_per_channel;
                let (left, right) = channel.adjacent();
                let left_space = match left {
                    Some(t) => self.max_per_channel.saturating_sub(self.channel_count(t)),
                    None => 0,
                };
                let right_space = match right {
                    Some(t) => self.max_per_channel.saturating_sub(self.channel_count(t)),
                    None => 0,
                };
                let mut to_left: usize = 0;
                let mut to_right: usize = 0;
                let len = occupants.len();
                let mut i: usize = 0;
                while i < excess
                    invariant
                        0 <= i <= excess,
                        c == channel_idx,
                        0 <= c < 5,
                        occupants@ == self.occ(c),
                        len == occupants@.len(),
                        excess == self.count(c) - self.max(),
                        self.over(c),
                        channel == channel_at(c).unwrap(),
                        left == channel_at(c - 1),
                        right == channel_at(c + 1),
                        left_space == self.space(left),
                        right_space == self.space(right),
                        to_left <= i,
                        to_right <= i,
                        base == self.moves_upto(c),
                        moves@ + self.moves_from(c, i as nat, to_left as nat, to_right as nat)
                            == base + self.moves_from(c, 0, 0, 0),
                    decreases excess - i,
                {
                    let player_idx = occupants[len - 1 - i];
                    let ghost rest = self.moves_from(c, i as nat, to_left as nat, to_right as nat);
                    let mut sent_left = false;
                    if (i % 2 == 0 && left_space > to_left) || right_space <= to_right {
                        if let Some(target) = left {
                            if to_left < left_space {
                                proof {
                                    assert(rest == seq![(player_idx, channel, target)]
                                        + self.moves_from(c, (i + 1) as nat, (to_left + 1) as nat, to_right as nat));
                                    assert(moves@.push((player_idx, channel, target))
                                        + self.moves_from(c, (i + 1) as nat, (to_left + 1) as nat, to_right as nat)
                                        =~= moves@ + rest);
                                }
                                moves.push((player_idx, channel, target));
                                to_left += 1;
                                sent_left = true;
                            }
                        }
                    }
                    if !sent_left {
                        match right {
                            Some(target) => {
                                if to_right < right_space {
                                    proof {
                                        assert(rest == seq![(player_idx, channel, target)]
                                            + self.moves_from(c, (i + 1) as nat, to_left as nat, (to_right + 1) as nat));
                                        assert(moves@.push((player_idx, channel, target))
                                            + self.moves_from(c, (i + 1) as nat, to_left as nat, (to_right + 1) as nat)
                                            =~= moves@ + rest);
                                    }
                                    moves.push((player_idx, channel, target));
                                    to_right += 1;
                                } else {
                                    assert(rest == self.moves_from(c, (i + 1) as nat, to_left as nat, to_right as nat));
                                }
                            },
                            None => {
                                assert(rest == self.moves_from(c, (i + 1) as nat, to_left as nat, to_right as nat));
                            },
                        }
                    }
                    i += 1;
                }
                proof {
                    assert(self.moves_from(c, i as nat, to_left as nat, to_right as nat) =~= Seq::empty());
                    assert(moves@ =~= moves@ + self.moves_from(c, i as nat, to_left as nat, to_right as nat));
                    assert(self.moves_upto(c + 1) == base + self.channel_moves(c));
                }
            }
        }
        moves
    }

    /// The closest channel to `current_channel`, other than itself, that is not
    /// overcrowded, looking left first at each distance.
    pub fn find_nearest_free_channel(&self, current_channel: Channel) -> (r: Option<Channel>)
        ensures
            match r {
                Some(c) => {
                    &&& c != current_channel
                    &&& !self.over(channel_index(c))
                    &&& forall|j: int|
                        0 <= j < 5 && j != channel_index(current_channel)
                            && abs(j - channel_index(current_channel))
                            < abs(channel_index(c) - channel_index(current_channel))
                            ==> #[trigger] self.over(j)
                    &&& channel_index(c) > channel_index(current_channel)
                        && channel_index(current_channel) - (channel_index(c) - channel_index(current_channel)) >= 0
                        ==> self.over(2 * channel_index(current_channel) - channel_index(c))
                },
                None => forall|j: int|
                    0 <= j < 5 && j != channel_index(current_channel) ==> #[trigger] self.over(j),
            },
    {
        let current_idx = current_channel.index();
        let mut distance: usize = 1;
        while distance <= 4
            invariant
                1 <= distance <= 5,
                current_idx == channel_index(current_channel),
                forall|j: int|
                    0 <= j < 5 && j != current_idx && abs(j - current_idx) < distance
                        ==> #[trigger] self.over(j),
            decreases 5 - distance,
        {
            if current_idx >= distance {
                let left_idx = current_idx - distance;
                let channel = Channel::from_index(left_idx).unwrap();
                if !self.is_overcrowded(channel) {
                    return Some(channel);
                }
            }
            let right_idx = current_idx + distance;
            if let Some(channel) = Channel::from_index(right_idx) {
                if !self.is_overcrowded(channel) {
                    return Some(channel);
                }
            }
            distance += 1;
        }
        None
    }
}

/// Number of moves in `s` that end in channel `t`.
pub open spec fn moves_into(s: Seq<ChannelMove>, t: Channel) -> nat
    decreases s.len(),
{
    if s.len() == 0 {
        0
    } else {
        moves_into(s.drop_first(), t) + if s[0].2 == t { 1nat } else { 0nat }
    }
}

proof fn lemma_moves_from_shape(g: PepGrid, c: int, i: nat, tl: nat, tr: nat)
    requires
        0 <= c < 5,
        g.over(c),
        tl <= g.space(channel_at(c - 1)),
        tr <= g.space(channel_at(c + 1)),
    ensures
        g.moves_from(c, i, tl, tr).len() <= (g.count(c) - g.max()) - i || i >= g.count(c) - g.max(),
        forall|k: int| 0 <= k < g.moves_from(c, i, tl, tr).len() ==> {
            let m = #[trigger] g.moves_from(c, i, tl, tr)[k];
            &&& m.1 == channel_at(c).unwrap()
            &&& (Some(m.2) == channel_at(c - 1) || Some(m.2) == channel_at(c + 1))
            &&& g.occ(c).contains(m.0)
        },
        channel_at(c - 1) matches Some(t) ==> moves_into(g.moves_from(c, i, tl, tr), t)
            <= g.space(channel_at(c - 1)) - tl,
        channel_at(c + 1) matches Some(t) ==> moves_into(g.moves_from(c, i, tl, tr), t)
            <= g.space(channel_at(c + 1)) - tr,
    decreases (g.count(c) - g.max()) - i,
{
    let excess = g.count(c) - g.max();
    let occ = g.occ(c);
    let left = channel_at(c - 1);
    let right = channel_at(c + 1);
    let ls = g.space(left);
    let rs = g.space(right);
    if i < excess {
        let p = occ[occ.len() - 1 - i];
        assert(occ.contains(p)) by {
            assert(occ[occ.len() - 1 - i] == p);
        }
        let from = channel_at(c).unwrap();
        let try_left = (i % 2 == 0 && ls > tl) || rs <= tr;
        let s = g.moves_from(c, i, tl, tr);
        if try_left && left.is_some() && tl < ls {
            lemma_moves_from_shape(g, c, i + 1, tl + 1, tr);
            let rest = g.moves_from(c, i + 1, tl + 1, tr);
            assert(s == seq![(p, from, left.unwrap())] + rest);
            assert(s.drop_first() =~= rest);
            assert forall|k: int| 0 <= k < s.len() implies {
                let m = #[trigger] s[k];
                &&& m.1 == channel_at(c).unwrap()
                &&& (Some(m.2) == channel_at(c - 1) || Some(m.2) == channel_at(c + 1))
                &&& g.occ(c).contains(m.0)
            } by {
                if k > 0 {
                    assert(s[k] == rest[k - 1]);
                }
            }
            if let Some(t) = right {
                assert(t != left.unwrap());
            }
        } else if right.is_some() && tr < rs {
            lemma_moves_from_shape(g, c, i + 1, tl, tr + 1);
            let rest = g.moves_from(c, i + 1, tl, tr + 1);
            assert(s == seq![(p, from, right.unwrap())] + rest);
            assert(s.drop_first() =~= rest);
            assert forall|k: int| 0 <= k < s.len() implies {
                let m = #[trigger] s[k];
                &&& m.1 == channel_at(c).unwrap()
                &&& (Some(m.2) == channel_at(c - 1) || Some(m.2) == channel_at(c + 1))
                &&& g.occ(c).contains(m.0)
            } by {
                if k > 0 {
                    assert(s[k] == rest[k - 1]);
                }
            }
            if let Some(t) = left {
                assert(t != right.unwrap());
            }
        } else {
            lemma_moves_from_shape(g, c, i + 1, tl, tr);
        }
    }
}

/// The moves suggested for an overcrowded channel send players standing in it
/// to a neighbouring channel, never more to a neighbour than it has free
/// places, and never more players than the channel holds beyond the cap.
pub proof fn lemma_channel_moves_respect_space(g: PepGrid, c: int)
    requires
        0 <= c < 5,
    ensures
        g.channel_moves(c).len() > 0 ==> g.over(c),
        g.over(c) ==> g.channel_moves(c).len() <= g.count(c) - g.max(),
        forall|k: int| 0 <= k < g.channel_moves(c).len() ==> {
            let m = #[trigger] g.channel_moves(c)[k];
            &&& m.1 == channel_at(c).unwrap()
            &&& (Some(m.2) == channel_at(c - 1) || Some(m.2) == channel_at(c + 1))
            &&& g.occ(c).contains(m.0)
        },
        forall|t: Channel| #[trigger] moves_into(g.channel_moves(c), t) <= g.space(Some(t)),
{
    if g.over(c) {
        lemma_moves_from_shape(g, c, 0, 0, 0);
        assert forall|t: Channel| #[trigger] moves_into(g.channel_moves(c), t) <= g.space(Some(t)) by {
            if Some(t) != channel_at(c - 1) && Some(t) != channel_at(c + 1) {
                lemma_moves_into_absent(g.channel_moves(c), t);
            }
        }
    } else {
        assert forall|t: Channel| #[trigger] moves_into(g.channel_moves(c), t) <= g.space(Some(t)) by {
            assert(g.channel_moves(c).len() == 0);
        }
    }
}

proof fn lemma_moves_into_absent(s: Seq<ChannelMove>, t: Channel)
    requires
        forall|k: int| 0 <= k < s.len() ==> (#[trigger] s[k]).2 != t,
    ensures
        moves_into(s, t) == 0,
    decreases s.len(),
{
    if s.len() > 0 {
        assert forall|k: int| 0 <= k < s.drop_first().len() implies (#[trigger] s.drop_first()[k]).2 != t by {
            assert(s.drop_first()[k] == s[k + 1]);
        }
        lemma_moves_into_absent(s.drop_first(), t);
    }
}

/// Every move that the grid suggests leaves an overcrowded channel for one of
/// its neighbours and concerns a player who stands in the channel it leaves.
pub proof fn lemma_resolve_moves_sound(g: PepGrid, k: int)
    requires
        0 <= k <= 5,
    ensures
        forall|j: int| 0 <= j < g.moves_upto(k).len() ==> {
            let m = #[trigger] g.moves_upto(k)[j];
            &&& g.over(channel_index(m.1))
            &&& abs(channel_index(m.2) - channel_index(m.1)) == 1
            &&& g.occ(channel_index(m.1)).contains(m.0)
        },
    decreases k,
{
    if k > 0 {
        lemma_resolve_moves_sound(g, k - 1);
        lemma_channel_moves_respect_space(g, k - 1);
        let a = g.moves_upto(k - 1);
        let b = g.channel_moves(k - 1);
        assert forall|j: int| 0 <= j < g.moves_upto(k).len() implies {
            let m = #[trigger] g.moves_upto(k)[j];
            &&& g.over(channel_index(m.1))
            &&& abs(channel_index(m.2) - channel_index(m.1)) == 1
            &&& g.occ(channel_index(m.1)).contains(m.0)
        } by {
            if j >= a.len() {
                let m = b[j - a.len()];
                assert(g.moves_upto(k)[j] == m);
                lemma_channel_index_roundtrip(m.2);
                assert(channel_at(k - 1).unwrap() == m.1);
            } else {
                assert(g.moves_upto(k)[j] == a[j]);
            }
        }
    }
}

/// Where the `k`-th excess player of the channel at `c` goes when the
/// neighbours have room for all the excess: a wing sends everyone inwards,
/// an inner channel alternates, left first.
pub open spec fn spread_target(c: int, k: int) -> Channel {
    if c == 0 {
        Channel::LeftHalfSpace
    } else if c == 4 {
        Channel::RightHalfSpace
    } else if k % 2 == 0 {
        channel_at(c - 1).unwrap()
    } else {
        channel_at(c + 1).unwrap()
    }
}

/// Whether every neighbour of the channel at `c` has room for all of its
/// excess players.
pub open spec fn room_for_excess(g: PepGrid, c: int) -> bool {
    &&& channel_at(c - 1) is Some ==> g.count(c) - g.max() <= g.space(channel_at(c - 1))
    &&& channel_at(c + 1) is Some ==> g.count(c) - g.max() <= g.space(channel_at(c + 1))
}

/// Excess players of the channel at `c` sent left among the first `i`, when
/// the neighbours have room for all the excess.
spec fn spread_left(c: int, i: nat) -> nat {
    if c == 0 { 0 } else if c == 4 { i } else { ((i + 1) / 2) as nat }
}

/// Excess players of the channel at `c` sent right among the first `i`, when
/// the neighbours have room for all the excess.
spec fn spread_right(c: int, i: nat) -> nat {
    if c == 0 { i } else if c == 4 { 0 } else { (i / 2) as nat }
}

proof fn lemma_moves_spread_from(g: PepGrid, c: int, i: nat)
    requires
        0 <= c < 5,
        g.over(c),
        room_for_excess(g, c),
        i <= g.count(c) - g.max(),
    ensures
        ({
            let s = g.moves_from(c, i, spread_left(c, i), spread_right(c, i));
            &&& s.len() == g.count(c) - g.max() - i
            &&& forall|k: int|
                0 <= k < s.len() ==> #[trigger] s[k] == (
                    g.occ(c)[g.count(c) - 1 - (i + k)],
                    channel_at(c).unwrap(),
                    spread_target(c, i + k),
                )
        }),
    decreases (g.count(c) - g.max()) - i,
{
    let excess = g.count(c) - g.max();
    let tl = spread_left(c, i);
    let tr = spread_right(c, i);
    if i < excess {
        let tl2 = spread_left(c, (i + 1) as nat);
        let tr2 = spread_right(c, (i + 1) as nat);
        lemma_moves_spread_from(g, c, (i + 1) as nat);
        let s = g.moves_from(c, i, tl, tr);
        let rest = g.moves_from(c, i + 1, tl2, tr2);
        let head = (g.occ(c)[g.count(c) - 1 - i], channel_at(c).unwrap(), spread_target(c, i as int));
        if c == 0 {
            assert(g.space(channel_at(c - 1)) == 0);
        } else if c == 4 {
            assert(g.space(channel_at(c + 1)) == 0);
        } else if i % 2 == 0 {
            assert(tl2 == tl + 1 && tr2 == tr);
        } else {
            assert(tl2 == tl && tr2 == tr + 1);
        }
        assert(s == seq![head] + rest);
        assert forall|k: int| 0 <= k < s.len() implies #[trigger] s[k] == (
            g.occ(c)[g.count(c) - 1 - (i + k)],
            channel_at(c).unwrap(),
            spread_target(c, i + k),
        ) by {
            if k > 0 {
                assert(s[k] == rest[k - 1]);
                assert(rest[k - 1] == (
                    g.occ(c)[g.count(c) - 1 - ((i + 1) + (k - 1))],
                    channel_at(c).unwrap(),
                    spread_target(c, (i + 1) + (k - 1)),
                ));
                assert((i + 1) + (k - 1) == i + k);
            } else {
                assert((seq![head] + rest)[0] == head);
            }
        }
    }
}

/// When the neighbours of an overcrowded channel have room for all of its
/// excess players, every excess player is moved, the last added first: from a
/// wing all go to the half-space beside it, and from an inner channel they
/// alternate between the left and the right neighbour, left first. So with two
/// excess players and room on both sides, the two end in different channels.
pub proof fn lemma_overcrowding_spreads(g: PepGrid, c: int)
    requires
        0 <= c < 5,
        g.over(c),
        room_for_excess(g, c),
    ensures
        g.channel_moves(c).len() == g.count(c) - g.max(),
        forall|k: int|
            0 <= k < g.channel_moves(c).len() ==> #[trigger] g.channel_moves(c)[k] == (
                g.occ(c)[g.count(c) - 1 - k],
                channel_at(c).unwrap(),
                spread_target(c, k),
            ),
        1 <= c <= 3 ==> forall|k: int|
            0 <= k < g.channel_moves(c).len() ==> channel_index((#[trigger] g.channel_moves(c)[k]).2) == if k % 2
                == 0 {
                c - 1
            } else {
                c + 1
            },
{
    lemma_moves_spread_from(g, c, 0);
    assert(spread_left(c, 0) == 0 && spread_right(c, 0) == 0);
    assert(g.channel_moves(c) == g.moves_from(c, 0, 0, 0));
    assert forall|k: int| 0 <= k < g.channel_moves(c).len() implies #[trigger] g.channel_moves(c)[k] == (
        g.occ(c)[g.count(c) - 1 - k],
        channel_at(c).unwrap(),
        spread_target(c, k),
    ) by {
        assert(g.moves_from(c, 0, 0, 0)[k] == (
            g.occ(c)[g.count(c) - 1 - (0 + k)],
            channel_at(c).unwrap(),
            spread_target(c, 0 + k),
        ));
    }
}

/// Whether no player stands twice on the grid, in one channel or in two.
pub open spec fn players_unique(g: PepGrid) -> bool {
    forall|i: int, j: int, a: int, b: int|
        0 <= i < 5 && 0 <= j < 5 && 0 <= a < g.count(i) && 0 <= b < g.count(j) && #[trigger] g.occ(i)[a]
            == #[trigger] g.occ(j)[b] ==> i == j && a == b
}

/// Whether no player occurs in two moves of `s`.
pub open spec fn moved_once(s: Seq<ChannelMove>) -> bool {
    forall|a: int, b: int| 0 <= a < b < s.len() ==> (#[trigger] s[a]).0 != (#[trigger] s[b]).0
}

proof fn lemma_moves_from_players(g: PepGrid, c: int, i: nat, tl: nat, tr: nat)
    requires
        0 <= c < 5,
        forall|a: int, b: int| 0 <= a < b < g.count(c) ==> #[trigger] g.occ(c)[a] != #[trigger] g.occ(c)[b],
    ensures
        forall|k: int|
            #![trigger g.moves_from(c, i, tl, tr)[k]]
            0 <= k < g.moves_from(c, i, tl, tr).len() ==> exists|pos: int|
                0 <= pos < g.count(c) - i && #[trigger] g.occ(c)[pos] == g.moves_from(c, i, tl, tr)[k].0,
        moved_once(g.moves_from(c, i, tl, tr)),
    decreases (g.count(c) - g.max()) - i,
{
    let excess = g.count(c) - g.max();
    let occ = g.occ(c);
    let left = channel_at(c - 1);
    let right = channel_at(c + 1);
    let ls = g.space(left);
    let rs = g.space(right);
    if i < excess {
        let pp = occ.len() - 1 - i;
        let p = occ[pp];
        let from = channel_at(c).unwrap();
        let try_left = (i % 2 == 0 && ls > tl) || rs <= tr;
        let s = g.moves_from(c, i, tl, tr);
        let (ntl, ntr) = if try_left && left.is_some() && tl < ls {
            (tl + 1, tr)
        } else if right.is_some() && tr < rs {
            (tl, tr + 1)
        } else {
            (tl, tr)
        };
        lemma_moves_from_players(g, c, i + 1, ntl, ntr);
        let rest = g.moves_from(c, i + 1, ntl, ntr);
        if (try_left && left.is_some() && tl < ls) || (right.is_some() && tr < rs) {
            assert(s.len() == rest.len() + 1);
            assert forall|k: int| 0 < k < s.len() implies s[k] == rest[k - 1] by {}
            assert(s[0].0 == p);
            assert forall|k: int| #![trigger s[k]] 0 <= k < s.len() implies exists|pos: int|
                0 <= pos < g.count(c) - i && #[trigger] g.occ(c)[pos] == s[k].0 by {
                if k == 0 {
                    assert(g.occ(c)[pp] == s[k].0);
                } else {
                    assert(s[k] == rest[k - 1]);
                }
            }
            assert forall|a: int, b: int| 0 <= a < b < s.len() implies (#[trigger] s[a]).0 != (#[trigger] s[b]).0 by {
                assert(s[b] == rest[b - 1]);
                if a == 0 {
                    let pos = choose|pos: int| 0 <= pos < g.count(c) - (i + 1) && #[trigger] g.occ(c)[pos] == rest[b - 1].0;
                    assert(pos < pp);
                } else {
                    assert(s[a] == rest[a - 1]);
                }
            }
        }
    }
}

/// Given that no player stands twice on the grid, the moves it suggests never
/// move a player twice.
pub proof fn lemma_resolve_moves_once(g: PepGrid, k: int)
    requires
        0 <= k <= 5,
        players_unique(g),
    ensures
        moved_once(g.moves_upto(k)),
        forall|j: int| 0 <= j < g.moves_upto(k).len() ==> channel_index((#[trigger] g.moves_upto(k)[j]).1) < k,
    decreases k,
{
    if k > 0 {
        lemma_resolve_moves_once(g, k - 1);
        lemma_resolve_moves_sound(g, k);
        let a = g.moves_upto(k - 1);
        let b = g.channel_moves(k - 1);
        let s = g.moves_upto(k);
        assert(s == a + b);
        lemma_channel_moves_respect_space(g, k - 1);
        assert forall|x: int, y: int| 0 <= x < y < g.count(k - 1) implies #[trigger] g.occ(k - 1)[x] != #[trigger] g.occ(
            k - 1,
        )[y] by {}
        if g.over(k - 1) {
            lemma_moves_from_players(g, k - 1, 0, 0, 0);
        }
        assert(moved_once(b));
        assert forall|j: int| 0 <= j < s.len() implies channel_index((#[trigger] s[j]).1) < k by {
            if j >= a.len() {
                assert(s[j] == b[j - a.len()]);
                lemma_channel_index_roundtrip(b[j - a.len()].1);
            } else {
                assert(s[j] == a[j]);
            }
        }
        assert forall|x: int, y: int| 0 <= x < y < s.len() implies (#[trigger] s[x]).0 != (#[trigger] s[y]).0 by {
            if y < a.len() {
                assert(s[x] == a[x] && s[y] == a[y]);
            } else if x >= a.len() {
                assert(s[x] == b[x - a.len()] && s[y] == b[y - a.len()]);
            } else {
                assert(s[x] == a[x] && s[y] == b[y - a.len()]);
                lemma_channel_index_roundtrip(b[y - a.len()].1);
                let cx = channel_index(s[x].1);
                let cy = channel_index(s[y].1);
                assert(cy == k - 1);
                assert(cx < k - 1);
                let px = choose|q: int| 0 <= q < g.count(cx) && g.occ(cx)[q] == s[x].0;
                let py = choose|q: int| 0 <= q < g.count(cy) && g.occ(cy)[q] == s[y].0;
                if s[x].0 == s[y].0 {
                    assert(g.occ(cx)[px] == g.occ(cy)[py]);
                }
            }
        }
    }
}

/// Short label of the channel at position `i` in the summary.
pub open spec fn channel_label(i: int) -> Seq<char> {
    if i == 0 {
        "LW"@
    } else if i == 1 {
        "LHS"@
    } else if i == 2 {
        "C"@
    } else if i == 3 {
        "RHS"@
    } else {
        "RW"@
    }
}

/// Player indices in decimal, separated by `", "`.
pub open spec fn join_players(s: Seq<usize>) -> Seq<char>
    decreases s.len(),
{
    if s.len() == 0 {
        Seq::empty()
    } else if s.len() == 1 {
        decimal(s[0] as nat)
    } else {
        join_players(s.drop_last()) + ", "@ + decimal(s.last() as nat)
    }
}

impl PepGrid {
    /// Summary line of the channel at position `i`: label, count and players.
    pub open spec fn channel_line(self, i: int) -> Seq<char> {
        channel_label(i) + ": "@ + decimal(self.count(i)) + " ["@ + join_players(self.occ(i)) + "]"@
    }

    /// The summary of the first `k` channels, separated by `" | "`.
    pub open spec fn summary_upto(self, k: int) -> Seq<char>
        decreases k,
    {
        if k <= 0 {
            Seq::empty()
        } else if k == 1 {
            self.channel_line(0)
        } else {
            self.summary_upto(k - 1) + " | "@ + self.channel_line(k - 1)
        }
    }

    /// A one-line summary of the grid, channel by channel from left to right,
    /// such as `LW: 1 [3] | LHS: 0 [] | C: 2 [0, 1] | RHS: 0 [] | RW: 0 []`.
    pub fn debug_state(&self) -> (r: String)
        ensures
            r@ == self.summary_upto(5),
    {
        let mut out = String::new();
        let mut i: usize = 0;
        while i < 5
            invariant
                0 <= i <= 5,
                out@ == self.summary_upto(i as int),
            decreases 5 - i,
        {
            let ghost before = out@;
            if i > 0 {
                out.append(" | ");
            }
            let label = match i {
                0 => "LW",
                1 => "LHS",
                2 => "C",
                3 => "RHS",
                _ => "RW",
            };
            out.append(label);
            out.append(": ");
            let occ = &self.occupants[i];
            push_decimal(&mut out, occ.len());
            out.append(" [");
            let n = occ.len();
            let ghost mid = out@;
            for k in 0..n
                invariant
                    n == occ@.len(),
                    occ@ == self.occ(i as int),
                    out@ == mid + join_players(occ@.take(k as int)),
            {
                let ghost pre = out@;
                if k > 0 {
                    out.append(", ");
                }
                push_decimal(&mut out, occ[k]);
                proof {
                    let t = occ@.take(k + 1);
                    assert(t.drop_last() =~= occ@.take(k as int));
                    if k > 0 {
                        assert(out@ =~= mid + (join_players(occ@.take(k as int)) + ", "@ + decimal(occ@[k as int] as nat)));
                    } else {
                        assert(join_players(occ@.take(0)) =~= Seq::empty());
                        assert(out@ =~= mid + decimal(occ@[0] as nat));
                    }
                }
            }
            out.append("]");
            proof {
                assert(occ@.take(n as int) =~= occ@);
                let line = self.channel_line(i as int);
                assert(label@ == channel_label(i as int));
                if i > 0 {
                    assert(out@ =~= before + " | "@ + line);
                } else {
                    assert(out@ =~= line);
                }
            }
            i += 1;
        }
        out
    }
}

/// Absolute value of an integer.
pub open spec fn abs(x: int) -> int {
    if x < 0 { -x } else { x }
}

/// Players assigned to the channel at position `i`, in assignment order.
/// The (player, channel) pairs that a list of player indices gives over a
/// list of positions, skipping indices without a position.
pub open spec fn position_assignments(positions: Seq<Coord10>, idx: Seq<usize>) -> Seq<
    (usize, Channel),
>
    decreases idx.len(),
{
    if idx.len() == 0 {
        Seq::empty()
    } else {
        let rest = position_assignments(positions, idx.drop_last());
        let p = idx.last();
        if p < positions.len() {
            rest.push((p, lane_channel(positions[p as int].y as int)))
        } else {
            rest
        }
    }
}

pub open spec fn players_in(assignments: Seq<(usize, Channel)>, i: int) -> Seq<usize>
    decreases assignments.len(),
{
    if assignments.len() == 0 {
        Seq::empty()
    } else {
        let last = assignments.last();
        let rest = players_in(assignments.drop_last(), i);
        if channel_index(last.1) == i {
            rest.push(last.0)
        } else {
            rest
        }
    }
}

} // verus!
