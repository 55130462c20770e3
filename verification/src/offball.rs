//! Decisions of players without the ball: their intents, how urgently they
//! move, the phase of play, and when objectives are renewed.
use vstd::prelude::*;
use crate::geometry::Coord10;

verus! {

/// Ticks an objective lasts in open play (about 3 s at 4 ticks per second).
pub const DEFAULT_TTL_TICKS: u64 = 12;

/// Ticks an objective lasts during a transition.
pub const TRANSITION_TTL_TICKS: u64 = 6;

/// Ticks after a change of possession during which transition rules apply.
pub const TRANSITION_WINDOW_TICKS: u64 = 8;

/// Most players deciding in one tick in open play.
pub const MAX_DECISIONS_NORMAL: usize = 6;

/// Most players deciding in one tick during a transition.
pub const MAX_DECISIONS_TRANSITION: usize = 8;

/// Players nearest the ball who always decide.
pub const BALL_PROXIMITY_TOP_N: usize = 4;

/// Most candidate objectives per player.
pub const MAX_CANDIDATES_PER_PLAYER: usize = 5;

/// What a player without the ball means to do.
#[derive(Debug, Clone, Copy, PartialEq, Eq, Hash, Structural)]
pub enum OffBallIntent {
    /// No objective: hold the formation position.
    NoIntent,
    /// Offer a passing option.
    LinkPlayer,
    /// Run behind the defensive line or into a half-space.
    SpaceAttacker,
    /// Wait for a second ball or a cutback.
    Lurker,
    /// Keep the width of the team.
    WidthHolder,
    /// Keep the shape and the spacing between lines.
    ShapeHolder,
    /// Recover the defensive shape.
    TrackBack,
    /// Block the lane between ball and goal.
    Screen,
    /// Support the press.
    PressSupport,
}

impl Default for OffBallIntent {
    fn default() -> (r: OffBallIntent)
        ensures
            r == OffBallIntent::NoIntent,
    {
        OffBallIntent::NoIntent
    }
}

/// Intents used while the team has the ball.
pub open spec fn attacking_intent(i: OffBallIntent) -> bool {
    i == OffBallIntent::LinkPlayer || i == OffBallIntent::SpaceAttacker || i == OffBallIntent::Lurker
        || i == OffBallIntent::WidthHolder || i == OffBallIntent::ShapeHolder
}

/// Intents used while the opponent has the ball.
pub open spec fn defensive_intent(i: OffBallIntent) -> bool {
    i == OffBallIntent::TrackBack || i == OffBallIntent::Screen || i == OffBallIntent::PressSupport
}

/// How strongly an objective is kept against a conflicting one.
pub open spec fn intent_priority(i: OffBallIntent) -> u8 {
    match i {
        OffBallIntent::SpaceAttacker => 3,
        OffBallIntent::LinkPlayer | OffBallIntent::Lurker => 2,
        OffBallIntent::Screen | OffBallIntent::PressSupport | OffBallIntent::TrackBack => 2,
        OffBallIntent::ShapeHolder => 2,
        OffBallIntent::WidthHolder => 1,
        OffBallIntent::NoIntent => 0,
    }
}

impl OffBallIntent {
    /// Whether the intent is one of the attacking ones.
    pub fn is_attacking(&self) -> (r: bool)
        ensures
            r == attacking_intent(*self),
    {
        match self {
            OffBallIntent::LinkPlayer | OffBallIntent::SpaceAttacker | OffBallIntent::Lurker
            | OffBallIntent::WidthHolder | OffBallIntent::ShapeHolder => true,
            _ => false,
        }
    }

    /// Whether the intent is one of the defensive ones.
    pub fn is_defensive(&self) -> (r: bool)
        ensures
            r == defensive_intent(*self),
    {
        match self {
            OffBallIntent::TrackBack | OffBallIntent::Screen | OffBallIntent::PressSupport => true,
            _ => false,
        }
    }
}

/// Priority of an intent (higher is kept first): 3 for a space attacker,
/// 1 for a width holder, 0 for no intent, 2 for the others.
pub fn get_intent_priority(intent: OffBallIntent) -> (r: u8)
    ensures
        r == intent_priority(intent),
{
    match intent {
        OffBallIntent::SpaceAttacker => 3,
        OffBallIntent::LinkPlayer | OffBallIntent::Lurker => 2,
        OffBallIntent::Screen | OffBallIntent::PressSupport | OffBallIntent::TrackBack => 2,
        OffBallIntent::ShapeHolder => 2,
        OffBallIntent::WidthHolder => 1,
        OffBallIntent::NoIntent => 0,
    }
}

/// Every intent but `None` is either attacking or defensive, never both, and
/// only `None` has priority 0.
pub proof fn lemma_intent_partition(i: OffBallIntent)
    ensures
        !(attacking_intent(i) && defensive_intent(i)),
        i != OffBallIntent::NoIntent <==> (attacking_intent(i) || defensive_intent(i)),
        intent_priority(i) == 0 <==> i == OffBallIntent::NoIntent,
        intent_priority(i) <= 3,
{
}

/// Movement urgency of an objective.
#[derive(Debug, Clone, Copy, PartialEq, Eq, Hash, Structural)]
pub enum Urgency {
    Walk,
    Jog,
    Sprint,
}

impl Default for Urgency {
    fn default() -> (r: Urgency)
        ensures
            r == Urgency::Jog,
    {
        Urgency::Jog
    }
}

/// Phase of play as a player sees it.
#[derive(Debug, Clone, Copy, PartialEq, Eq, Structural)]
pub enum GamePhase {
    /// The team has the ball.
    Attacking,
    /// The opponent has the ball.
    Defending,
    /// The team has just won the ball.
    TransitionWin,
    /// The team has just lost the ball.
    TransitionLoss,
}

impl Default for GamePhase {
    fn default() -> (r: GamePhase)
        ensures
            r == GamePhase::Attacking,
    {
        GamePhase::Attacking
    }
}

pub open spec fn phase_is_transition(p: GamePhase) -> bool {
    p == GamePhase::TransitionWin || p == GamePhase::TransitionLoss
}

pub open spec fn phase_is_attacking(p: GamePhase) -> bool {
    p == GamePhase::Attacking || p == GamePhase::TransitionWin
}

pub open spec fn phase_is_defending(p: GamePhase) -> bool {
    p == GamePhase::Defending || p == GamePhase::TransitionLoss
}

impl GamePhase {
    /// Whether possession has just changed.
    pub fn is_transition(&self) -> (r: bool)
        ensures
            r == phase_is_transition(*self),
    {
        match self {
            GamePhase::TransitionWin | GamePhase::TransitionLoss => true,
            _ => false,
        }
    }

    /// Whether the team has the ball (settled or just won).
    pub fn is_attacking(&self) -> (r: bool)
        ensures
            r == phase_is_attacking(*self),
    {
        match self {
            GamePhase::Attacking | GamePhase::TransitionWin => true,
            _ => false,
        }
    }

    /// Whether the opponent has the ball (settled or just won).
    pub fn is_defending(&self) -> (r: bool)
        ensures
            r == phase_is_defending(*self),
    {
        match self {
            GamePhase::Defending | GamePhase::TransitionLoss => true,
            _ => false,
        }
    }
}

/// In every phase a team is either attacking or defending, not both.
pub proof fn lemma_phase_attacking_xor_defending(p: GamePhase)
    ensures
        phase_is_attacking(p) != phase_is_defending(p),
{
}

/// Style of play of a team.
#[derive(Debug, Clone, Copy, PartialEq, Eq, Hash, Structural)]
pub enum TacticalPreset {
    Balanced,
    Possession,
    HighPress,
    Counter,
    ParkTheBus,
}

impl Default for TacticalPreset {
    fn default() -> (r: TacticalPreset)
        ensures
            r == TacticalPreset::Balanced,
    {
        TacticalPreset::Balanced
    }
}

/// Whether a change of possession `ticks_since_change` ticks ago still lies in
/// the transition window (fewer than 8 ticks).
pub fn is_transition_window(ticks_since_change: u64) -> (r: bool)
    ensures
        r == (ticks_since_change < TRANSITION_WINDOW_TICKS),
{
    ticks_since_change < TRANSITION_WINDOW_TICKS
}

/// Phase of play for the whole pitch before it is refined per player: the
/// team view is always `Attacking` (the transition direction is only known per player).
pub fn determine_phase(possession_team: u8, is_transition: bool, ticks_since: u64) -> (r: GamePhase)
    ensures
        r == GamePhase::Attacking,
{
    if is_transition && ticks_since < 8 {
        GamePhase::Attacking
    } else {
        GamePhase::Attacking
    }
}

/// Phase of play of player `idx` when team `team` has the ball (0 home, 1 away).
pub open spec fn phase_of_player(idx: int, team: u8, ticks: u64) -> GamePhase {
    if (if idx < 11 { team == 0 } else { team == 1 }) {
        if ticks < 8 { GamePhase::TransitionWin } else { GamePhase::Attacking }
    } else {
        if ticks < 8 { GamePhase::TransitionLoss } else { GamePhase::Defending }
    }
}

/// Phase of play of one player: attacking when the player's team (0 home for
/// players 0-10, 1 away) has the ball, defending otherwise, and the transition
/// variant of either while possession changed fewer than 8 ticks ago.
pub fn player_phase(player_idx: usize, possession_team: u8, ticks_since_transition: u64) -> (r: GamePhase)
    ensures
        r == phase_of_player(player_idx as int, possession_team, ticks_since_transition),
{
    let is_transition = ticks_since_transition < TRANSITION_WINDOW_TICKS;
    let player_possession = if player_idx < 11 {
        possession_team == 0
    } else {
        possession_team == 1
    };
    if player_possession {
        if is_transition && ticks_since_transition < 8 {
            GamePhase::TransitionWin
        } else {
            GamePhase::Attacking
        }
    } else {
        if is_transition && ticks_since_transition < 8 {
            GamePhase::TransitionLoss
        } else {
            GamePhase::Defending
        }
    }
}

/// Line of a player from the slot of its index in a 4-4-2: 0 goalkeeper
/// (slot 0), 1 defender (slots 1-4), 2 midfielder (5-8), 3 forward (9-10).
pub fn get_player_line_role(player_idx: usize) -> (r: u8)
    ensures
        r == if player_idx % 11 == 0 {
            0u8
        } else if player_idx % 11 <= 4 {
            1u8
        } else if player_idx % 11 <= 8 {
            2u8
        } else {
            3u8
        },
{
    let local_idx = player_idx % 11;
    match local_idx {
        0 => 0,
        1..=4 => 1,
        5..=8 => 2,
        _ => 3,
    }
}

/// Ticks an objective lasts in a phase: the transition value during a
/// transition, the default value otherwise.
pub fn ttl_for_phase(phase: GamePhase, ttl_default: u64, ttl_transition: u64) -> (r: u64)
    ensures
        r == if phase_is_transition(phase) { ttl_transition } else { ttl_default },
{
    if phase.is_transition() {
        ttl_transition
    } else {
        ttl_default
    }
}

/// Both teams see the same change of possession from opposite sides: when one
/// player's phase is a win, the phase of a player of the other team at the same
/// moment is the matching loss, and the other way round.
pub proof fn lemma_player_phases_opposite(a: usize, b: usize, team: u8, ticks: u64)
    requires
        a < 11,
        11 <= b,
        team <= 1,
    ensures
        phase_is_attacking(phase_of_player(a as int, team, ticks)) == phase_is_defending(
            phase_of_player(b as int, team, ticks),
        ),
        phase_is_transition(phase_of_player(a as int, team, ticks)) == phase_is_transition(
            phase_of_player(b as int, team, ticks),
        ),
{
}


/// How urgently a player moves to a new objective: a sprint in a transition,
/// or on a defensive intent with the ball within 30 m of the own goal line,
/// when stamina (thousandths) is above 0.2; a jog otherwise. `ball_x` is in
/// 0.1 m; a team attacking towards high x defends the line at x = 0.
pub open spec fn urgency_for(intent: OffBallIntent, phase: GamePhase, stamina_pm: u32, ball_x: i32, attacks_right: bool) -> Urgency {
    let own_goal_x: int = if attacks_right { 0 } else { 1050 };
    let ball_to_goal: int = if ball_x >= own_goal_x { ball_x - own_goal_x } else { own_goal_x - ball_x };
    if phase_is_transition(phase) && stamina_pm > 200 {
        Urgency::Sprint
    } else if defensive_intent(intent) && ball_to_goal < 300 && stamina_pm > 200 {
        Urgency::Sprint
    } else {
        Urgency::Jog
    }
}

/// The urgency of a new objective, as `urgency_for` states it.
pub fn determine_urgency(intent: OffBallIntent, phase: GamePhase, stamina_pm: u32, ball_x: i32, attacks_right: bool) -> (r:
    Urgency)
    ensures
        r == urgency_for(intent, phase, stamina_pm, ball_x, attacks_right),
{
    if phase.is_transition() && stamina_pm > 200 {
        return Urgency::Sprint;
    }
    if intent.is_defensive() {
        let own_goal_x: i64 = if attacks_right { 0 } else { 1050 };
        let bx = ball_x as i64;
        let ball_to_goal = if bx >= own_goal_x { bx - own_goal_x } else { own_goal_x - bx };
        if ball_to_goal < 300 && stamina_pm > 200 {
            return Urgency::Sprint;
        }
    }
    Urgency::Jog
}

/// The outfield players (every index of the team but its keeper) of team 0
/// (indices 0-10) or of the other team (11-21).
pub open spec fn outfield_of(team: u8, i: int) -> bool {
    if team == 0 { 1 <= i < 11 } else { 12 <= i < 22 }
}

/// The x (0.1 m) of the deepest outfield player of a team, seen by an
/// attacker: the lowest x when attacking towards high x (never above the
/// far goal line, 1050), the highest otherwise (never below 0).
pub fn estimate_defensive_line(positions: &[Coord10; 22], opponent_team: u8, attacks_right: bool) -> (r: i32)
    ensures
        attacks_right ==> r <= 1050 && forall|i: int| outfield_of(opponent_team, i) ==> r <= #[trigger] positions@[i].x,
        attacks_right ==> r == 1050 || exists|i: int| outfield_of(opponent_team, i) && r == #[trigger] positions@[i].x,
        !attacks_right ==> r >= 0 && forall|i: int| outfield_of(opponent_team, i) ==> r >= #[trigger] positions@[i].x,
        !attacks_right ==> r == 0 || exists|i: int| outfield_of(opponent_team, i) && r == #[trigger] positions@[i].x,
{
    let start: usize = if opponent_team == 0 { 1 } else { 12 };
    let end: usize = if opponent_team == 0 { 11 } else { 22 };
    let mut deepest: i32 = if attacks_right { 1050 } else { 0 };
    for idx in start..end
        invariant
            start == (if opponent_team == 0 { 1usize } else { 12usize }),
            end == (if opponent_team == 0 { 11usize } else { 22usize }),
            attacks_right ==> deepest <= 1050 && forall|i: int| outfield_of(opponent_team, i) && i < idx ==> deepest
                <= #[trigger] positions@[i].x,
            attacks_right ==> deepest == 1050 || exists|i: int| outfield_of(opponent_team, i) && deepest
                == #[trigger] positions@[i].x,
            !attacks_right ==> deepest >= 0 && forall|i: int| outfield_of(opponent_team, i) && i < idx ==> deepest
                >= #[trigger] positions@[i].x,
            !attacks_right ==> deepest == 0 || exists|i: int| outfield_of(opponent_team, i) && deepest
                == #[trigger] positions@[i].x,
    {
        let x = positions[idx].x;
        if attacks_right {
            if x < deepest {
                deepest = x;
            }
        } else if x > deepest {
            deepest = x;
        }
    }
    deepest
}

/// `v` within `lo..=hi`.
pub open spec fn clamp_i(v: int, lo: int, hi: int) -> int {
    if v < lo {
        lo
    } else if v > hi {
        hi
    } else {
        v
    }
}

/// The x (0.1 m) a line should hold: the keeper 5 m off his goal line; the
/// other lines around a base (the ball when attacking, a block 30 m from the
/// own goal line when defending), the defence 14 m behind it, the midfield
/// on it and the attack 16 m ahead, kept within the pitch margins.
pub open spec fn line_anchor(ball_x: i32, role: u8, is_attacking: bool, attacks_right: bool) -> int {
    let dir: int = if attacks_right { 1 } else { -1 };
    let base: int = if is_attacking {
        ball_x as int
    } else if attacks_right {
        300
    } else {
        750
    };
    if role == 0 {
        if attacks_right { 50 } else { 1000 }
    } else if role == 1 {
        clamp_i(base - 140 * dir, 50, 1000)
    } else if role == 2 {
        clamp_i(base, 150, 900)
    } else if role == 3 {
        clamp_i(base + 160 * dir, 100, 1000)
    } else {
        base
    }
}

fn clamp_i64(v: i64, lo: i64, hi: i64) -> (r: i64)
    requires
        lo <= hi,
    ensures
        r == clamp_i(v as int, lo as int, hi as int),
{
    if v < lo {
        lo
    } else if v > hi {
        hi
    } else {
        v
    }
}

/// The x a line should hold, as `line_anchor` states it.
pub fn calculate_line_anchor_x(ball_x: i32, player_line_role: u8, is_attacking: bool, attacks_right: bool) -> (r: i32)
    ensures
        r == line_anchor(ball_x, player_line_role, is_attacking, attacks_right),
{
    let dir: i64 = if attacks_right { 1 } else { -1 };
    let base: i64 = if is_attacking {
        ball_x as i64
    } else if attacks_right {
        300
    } else {
        750
    };
    let r: i64 = match player_line_role {
        0 => if attacks_right { 50 } else { 1000 },
        1 => clamp_i64(base - 140 * dir, 50, 1000),
        2 => clamp_i64(base, 150, 900),
        3 => clamp_i64(base + 160 * dir, 100, 1000),
        _ => base,
    };
    r as i32
}

} // verus!
