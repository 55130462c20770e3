//! Objectives of players without the ball, the triggers that end them early,
//! and the choice of the players who decide again in a tick.
use vstd::prelude::*;
use crate::geometry::{Coord10, dist_sq, distance_sq};
use crate::offball::{
    OffBallIntent,
    Urgency,
    intent_priority,
    get_intent_priority,
    BALL_PROXIMITY_TOP_N,
    MAX_DECISIONS_NORMAL,
    MAX_DECISIONS_TRANSITION,
};
use crate::operations::players_ops::{
    is_nearest_k_to,
    lemma_range_except_props,
    lemma_range_except_absent,
    nearer,
    nearest_k,
    range_except,
};

verus! {

/// Distance to the ball (0.1 m) under which a player's objective ends at once.
pub const BALL_PROXIMITY_TRIGGER: i32 = 60;

/// Stamina (percent) under which a sprinting player's objective ends.
pub const STAMINA_LOW_THRESHOLD: u8 = 20;

/// Distance (0.1 m) between player and target under which an objective is void.
pub const MIN_TARGET_DISTANCE: i32 = 10;

/// Width (0.1 m) of each of the three lines of the pitch, from the home goal.
pub const LINE_DEPTH: i32 = 350;

/// Where a player without the ball means to go, and until when.
#[derive(Debug, Clone, Copy, PartialEq, Eq, Structural)]
pub struct OffBallObjective {
    /// What the player means to do.
    pub intent: OffBallIntent,
    /// Target position.
    pub target: Coord10,
    /// How fast the player moves there.
    pub urgency: Urgency,
    /// Tick at which the objective expires.
    pub expire_tick: u64,
    /// Priority in conflicts between objectives (higher is kept).
    pub priority: u8,
    /// Confidence of the evaluation that chose it, in thousandths.
    pub confidence: u16,
}

/// An objective has an intent.
pub open spec fn objective_valid(o: OffBallObjective) -> bool {
    o.intent != OffBallIntent::NoIntent
}

/// An objective has expired at `tick`.
pub open spec fn objective_expired(o: OffBallObjective, tick: u64) -> bool {
    tick >= o.expire_tick
}

/// The empty objective: no intent, expired from the start.
pub open spec fn empty_objective() -> OffBallObjective {
    OffBallObjective {
        intent: OffBallIntent::NoIntent,
        target: Coord10 { x: 0, y: 0 },
        urgency: Urgency::Jog,
        expire_tick: 0,
        priority: 0,
        confidence: 0,
    }
}

impl Default for OffBallObjective {
    fn default() -> (r: OffBallObjective)
        ensures
            r == empty_objective(),
    {
        OffBallObjective {
            intent: OffBallIntent::NoIntent,
            target: Coord10 { x: 0, y: 0 },
            urgency: Urgency::Jog,
            expire_tick: 0,
            priority: 0,
            confidence: 0,
        }
    }
}

impl OffBallObjective {
    /// Whether the objective has expired at `current_tick`.
    pub fn is_expired(&self, current_tick: u64) -> (r: bool)
        ensures
            r == objective_expired(*self, current_tick),
    {
        current_tick >= self.expire_tick
    }

    /// Whether the objective has an intent.
    pub fn is_valid(&self) -> (r: bool)
        ensures
            r == objective_valid(*self),
    {
        !matches!(self.intent, OffBallIntent::NoIntent)
    }

    /// The target position.
    pub fn target_pos(&self) -> (r: Coord10)
        ensures
            r == self.target,
    {
        self.target
    }

    /// A new objective; its priority is that of its intent.
    pub fn new(
        intent: OffBallIntent,
        target: Coord10,
        urgency: Urgency,
        expire_tick: u64,
        confidence: u16,
    ) -> (r: OffBallObjective)
        ensures
            r == (OffBallObjective {
                intent,
                target,
                urgency,
                expire_tick,
                priority: intent_priority(intent),
                confidence,
            }),
    {
        OffBallObjective {
            intent,
            target,
            urgency,
            expire_tick,
            priority: get_intent_priority(intent),
            confidence,
        }
    }

    /// Ends the objective at `current_tick`.
    pub fn force_expire(&mut self, current_tick: u64)
        ensures
            *final(self) == (OffBallObjective { expire_tick: current_tick, ..*old(self) }),
    {
        self.expire_tick = current_tick;
    }

    /// Removes the objective.
    pub fn clear(&mut self)
        ensures
            *final(self) == empty_objective(),
    {
        *self = OffBallObjective::default();
    }
}

/// Whether one of the triggers ends an objective early: a change of
/// possession, the ball within 6 m, a sprint on low stamina, a target off the
/// pitch, or a target less than 1 m from the player.
pub open spec fn triggers_expiry(
    o: OffBallObjective,
    player: Coord10,
    stamina: u8,
    ball: Coord10,
    possession_changed: bool,
) -> bool {
    ||| possession_changed
    ||| dist_sq(player, ball) < 3600
    ||| (o.urgency == Urgency::Sprint && stamina < 20)
    ||| o.target.x < 0
    ||| o.target.x > 1050
    ||| o.target.y < 0
    ||| o.target.y > 680
    ||| dist_sq(o.target, player) < 100
}

/// An objective after the triggers have been applied at `tick`.
pub open spec fn after_triggers(
    o: OffBallObjective,
    player: Coord10,
    stamina: u8,
    ball: Coord10,
    possession_changed: bool,
    tick: u64,
) -> OffBallObjective {
    if objective_valid(o) && triggers_expiry(o, player, stamina, ball, possession_changed) {
        OffBallObjective { expire_tick: tick, ..o }
    } else {
        o
    }
}

/// Ends, at `current_tick`, each objective with an intent that a trigger hits:
/// a change of possession, the ball within 6 m of the player, a sprint with
/// stamina (percent) under 20, a target off the pitch or less than 1 m away.
/// Other objectives stay as they are.
pub fn apply_force_expire_triggers(
    objectives: &mut [OffBallObjective; 22],
    player_positions: &[Coord10; 22],
    player_staminas: &[u8; 22],
    ball_pos: Coord10,
    possession_changed: bool,
    current_tick: u64,
)
    ensures
        forall|i: int|
            0 <= i < 22 ==> #[trigger] final(objectives)@[i] == after_triggers(
                old(objectives)@[i],
                player_positions@[i],
                player_staminas@[i],
                ball_pos,
                possession_changed,
                current_tick,
            ),
{
    let ghost start = objectives@;
    // squares of the trigger distances, 6 m and 1 m
    let proximity: u128 = 3600;
    let closeness: u128 = 100;
    for idx in 0..22
        invariant
            start == old(objectives)@,
            proximity == 3600,
            closeness == 100,
            forall|i: int|
                0 <= i < idx ==> #[trigger] objectives@[i] == after_triggers(
                    start[i],
                    player_positions@[i],
                    player_staminas@[i],
                    ball_pos,
                    possession_changed,
                    current_tick,
                ),
            forall|i: int| idx <= i < 22 ==> #[trigger] objectives@[i] == start[i],
    {
        let obj = objectives[idx];
        if obj.is_valid() {
            let p = player_positions[idx];
            let mut should_expire = possession_changed;
            if distance_sq(p, ball_pos) < proximity {
                should_expire = true;
            }
            if matches!(obj.urgency, Urgency::Sprint) && player_staminas[idx] < STAMINA_LOW_THRESHOLD {
                should_expire = true;
            }
            let t = obj.target;
            if t.x < 0 || t.x > 1050 || t.y < 0 || t.y > 680 {
                should_expire = true;
            }
            if distance_sq(t, p) < closeness {
                should_expire = true;
            }
            if should_expire {
                objectives[idx].expire_tick = current_tick;
            }
        }
    }
}

/// Whether `x` (0.1 m) lies in line `line` of the pitch: 0 defence
/// [0, 35 m), 1 midfield [35 m, 70 m), 2 attack [70 m, 105 m).
pub open spec fn in_line(x: int, line: int) -> bool {
    350 * line <= x < 350 * (line + 1)
}

/// The first player of `order`, from position `k` on, who is not in `sel`
/// and stands in `line`.
pub open spec fn first_in_line(
    order: Seq<usize>,
    k: int,
    sel: Seq<usize>,
    pos: Seq<Coord10>,
    line: int,
) -> Option<usize>
    decreases order.len() - k,
{
    if k < 0 || k >= order.len() {
        None
    } else if !sel.contains(order[k]) && in_line(pos[order[k] as int].x as int, line) {
        Some(order[k])
    } else {
        first_in_line(order, k + 1, sel, pos, line)
    }
}

/// `sel` after adding, for each line from `line` on while there is room, the
/// first player of `order` in that line who is not yet chosen.
pub open spec fn take_lines(
    order: Seq<usize>,
    sel: Seq<usize>,
    pos: Seq<Coord10>,
    max: int,
    line: int,
) -> Seq<usize>
    decreases 3 - line,
{
    if line >= 3 || sel.len() >= max {
        sel
    } else {
        let next = match first_in_line(order, 0, sel, pos, line) {
            Some(c) => sel.push(c),
            None => sel,
        };
        take_lines(order, next, pos, max, line + 1)
    }
}

/// `sel` after adding, while there is room, the players of `order` from
/// position `k` on who are due and not yet chosen, in order.
pub open spec fn take_due(
    order: Seq<usize>,
    k: int,
    sel: Seq<usize>,
    max: int,
    due: Seq<bool>,
) -> Seq<usize>
    decreases order.len() - k,
{
    if k < 0 || k >= order.len() || sel.len() >= max {
        sel
    } else {
        let c = order[k];
        let next = if !sel.contains(c) && due[c as int] {
            sel.push(c)
        } else {
            sel
        };
        take_due(order, k + 1, next, max, due)
    }
}

/// Number of players nearest the ball who decide first.
pub open spec fn proximity_quota(n: int, max: int) -> int {
    let a = if (BALL_PROXIMITY_TOP_N as int) < max { BALL_PROXIMITY_TOP_N as int } else { max };
    if a < n { a } else { n }
}

/// The players who decide, from `order` (nearest the ball first): the nearest
/// ones, then the first unchosen one of each line, then those whose objective
/// is due, at most `max` in all.
pub open spec fn selection(order: Seq<usize>, pos: Seq<Coord10>, due: Seq<bool>, max: int) -> Seq<usize> {
    let first = order.take(proximity_quota(order.len() as int, max));
    take_due(order, 0, take_lines(order, first, pos, max, 0), max, due)
}

/// Whether each player's objective is due for a new decision at `tick`: it
/// has no intent or has expired.
pub open spec fn due_flags(objectives: Seq<OffBallObjective>, tick: u64) -> Seq<bool> {
    Seq::new(22, |i: int| !objective_valid(objectives[i]) || objective_expired(objectives[i], tick))
}

/// Most players who decide in a tick.
pub open spec fn decision_quota(is_transition: bool) -> int {
    if is_transition { MAX_DECISIONS_TRANSITION as int } else { MAX_DECISIONS_NORMAL as int }
}

/// Players other than the ball owner.
pub open spec fn decision_candidates(ball_owner: Option<usize>) -> Seq<usize> {
    range_except(
        0,
        22,
        match ball_owner {
            Some(o) => o as int,
            None => -1,
        },
    )
}

proof fn lemma_push_contains(s: Seq<usize>, c: usize, x: usize)
    ensures
        s.push(c).contains(x) <==> (s.contains(x) || x == c),
{
    if s.contains(x) {
        let i = choose|i: int| 0 <= i < s.len() && s[i] == x;
        assert(s.push(c)[i] == x);
    }
    if x == c {
        assert(s.push(c)[s.len() as int] == x);
    }
    if s.push(c).contains(x) && x != c {
        let i = choose|i: int| 0 <= i < s.push(c).len() && s.push(c)[i] == x;
        assert(s[i] == x);
    }
}

proof fn lemma_push_contains_all(s: Seq<usize>, c: usize)
    ensures
        forall|x: usize| #[trigger] s.push(c).contains(x) <==> (s.contains(x) || x == c),
{
    assert forall|x: usize| #[trigger] s.push(c).contains(x) <==> (s.contains(x) || x == c) by {
        lemma_push_contains(s, c, x);
    }
}

/// The first player of `order` from `k` on found by `first_in_line` is in
/// `order` and not in `sel`.
proof fn lemma_first_in_line(order: Seq<usize>, k: int, sel: Seq<usize>, pos: Seq<Coord10>, line: int)
    requires
        0 <= k,
    ensures
        first_in_line(order, k, sel, pos, line) matches Some(c) ==> order.contains(c) && !sel.contains(c),
    decreases order.len() - k,
{
    if k < order.len() {
        if !sel.contains(order[k]) && in_line(pos[order[k] as int].x as int, line) {
            assert(order[k] == order[k]);
        } else {
            lemma_first_in_line(order, k + 1, sel, pos, line);
        }
    }
}

/// What the choice keeps: nothing twice, only players of `order`, at most
/// `max`, and what was chosen before stays first.
pub open spec fn grows_well(order: Seq<usize>, sel: Seq<usize>, r: Seq<usize>, max: int) -> bool {
    &&& r.no_duplicates()
    &&& forall|x: usize| r.contains(x) ==> order.contains(x)
    &&& r.len() <= max
    &&& r.len() >= sel.len()
    &&& r.take(sel.len() as int) == sel
}

proof fn lemma_push_grows(order: Seq<usize>, sel: Seq<usize>, c: usize)
    requires
        sel.no_duplicates(),
        !sel.contains(c),
    ensures
        sel.push(c).no_duplicates(),
        sel.push(c).take(sel.len() as int) == sel,
{
    let s = sel.push(c);
    assert forall|i: int, j: int| 0 <= i < s.len() && 0 <= j < s.len() && i != j implies s[i] != s[j] by {
        if i < sel.len() && j < sel.len() {
            assert(s[i] == sel[i] && s[j] == sel[j]);
        } else if i < sel.len() {
            assert(s[i] == sel[i]);
        } else {
            assert(s[j] == sel[j]);
        }
    }
    assert(s.take(sel.len() as int) =~= sel);
}

proof fn lemma_take_lines(order: Seq<usize>, sel: Seq<usize>, pos: Seq<Coord10>, max: int, line: int)
    requires
        sel.no_duplicates(),
        forall|x: usize| sel.contains(x) ==> order.contains(x),
        sel.len() <= max,
    ensures
        grows_well(order, sel, take_lines(order, sel, pos, max, line), max),
    decreases 3 - line,
{
    let r = take_lines(order, sel, pos, max, line);
    if line >= 3 || sel.len() >= max {
        assert(sel.take(sel.len() as int) =~= sel);
    } else {
        lemma_first_in_line(order, 0, sel, pos, line);
        match first_in_line(order, 0, sel, pos, line) {
            Some(c) => {
                let next = sel.push(c);
                lemma_push_grows(order, sel, c);
                assert forall|x: usize| next.contains(x) implies order.contains(x) by {
                    lemma_push_contains(sel, c, x);
                }
                lemma_take_lines(order, next, pos, max, line + 1);
                assert(r.take(sel.len() as int) =~= r.take(next.len() as int).take(sel.len() as int));
            },
            None => {
                lemma_take_lines(order, sel, pos, max, line + 1);
            },
        }
    }
}

proof fn lemma_take_due(order: Seq<usize>, k: int, sel: Seq<usize>, max: int, due: Seq<bool>)
    requires
        0 <= k,
        sel.no_duplicates(),
        forall|x: usize| sel.contains(x) ==> order.contains(x),
        sel.len() <= max,
    ensures
        grows_well(order, sel, take_due(order, k, sel, max, due), max),
    decreases order.len() - k,
{
    let r = take_due(order, k, sel, max, due);
    if k >= order.len() || sel.len() >= max {
        assert(sel.take(sel.len() as int) =~= sel);
    } else {
        let c = order[k];
        if !sel.contains(c) && due[c as int] {
            let next = sel.push(c);
            lemma_push_grows(order, sel, c);
            assert forall|x: usize| next.contains(x) implies order.contains(x) by {
                lemma_push_contains(sel, c, x);
            }
            lemma_take_due(order, k + 1, next, max, due);
            assert(r.take(sel.len() as int) =~= r.take(next.len() as int).take(sel.len() as int));
        } else {
            lemma_take_due(order, k + 1, sel, max, due);
        }
    }
}

/// The choice of the players who decide never takes a player twice, takes
/// only players of the ranking, at most `max` of them, and starts with the
/// players nearest the ball.
pub proof fn lemma_selection_laws(order: Seq<usize>, pos: Seq<Coord10>, due: Seq<bool>, max: int)
    requires
        order.no_duplicates(),
        max >= 0,
    ensures
        ({
            let r = selection(order, pos, due, max);
            let n = proximity_quota(order.len() as int, max);
            &&& r.no_duplicates()
            &&& forall|x: usize| r.contains(x) ==> order.contains(x)
            &&& r.len() <= max
            &&& r.len() >= n
            &&& r.take(n) == order.take(n)
        }),
{
    let n = proximity_quota(order.len() as int, max);
    let first = order.take(n);
    assert forall|i: int, j: int| 0 <= i < first.len() && 0 <= j < first.len() && i != j implies first[i]
        != first[j] by {
        assert(first[i] == order[i] && first[j] == order[j]);
    }
    assert forall|x: usize| first.contains(x) implies order.contains(x) by {
        let i = choose|i: int| 0 <= i < first.len() && first[i] == x;
        assert(order[i] == x);
    }
    lemma_take_lines(order, first, pos, max, 0);
    let s2 = take_lines(order, first, pos, max, 0);
    lemma_take_due(order, 0, s2, max, due);
    let r = selection(order, pos, due, max);
    assert(r.take(n) =~= r.take(s2.len() as int).take(n));
}

/// The players who decide, chosen from `order` (nearest the ball first) as
/// `selection` says.
fn select_from_order(
    order: &Vec<usize>,
    positions: &[Coord10; 22],
    due: &[bool; 22],
    max_decisions: usize,
) -> (r: Vec<usize>)
    requires
        order@.len() <= 22,
        forall|i: int| 0 <= i < order@.len() ==> #[trigger] order@[i] < 22,
    ensures
        r@ == selection(order@, positions@, due@, max_decisions as int),
{
    let n = order.len();
    let mut selected: Vec<usize> = Vec::new();
    let mut chosen = [false; 22];
    // the players nearest the ball
    let quota = if BALL_PROXIMITY_TOP_N < max_decisions { BALL_PROXIMITY_TOP_N } else { max_decisions };
    let quota = if quota < n { quota } else { n };
    let mut k: usize = 0;
    while k < quota
        invariant
            quota == proximity_quota(n as int, max_decisions as int),
            n == order@.len(),
            k <= quota <= n,
            forall|i: int| 0 <= i < order@.len() ==> #[trigger] order@[i] < 22,
            selected@ == order@.take(k as int),
            forall|x: int| 0 <= x < 22 ==> (#[trigger] chosen@[x] <==> selected@.contains(x as usize)),
        decreases quota - k,
    {
        let c = order[k];
        proof {
            lemma_push_contains_all(selected@, c);
        }
        selected.push(c);
        chosen[c] = true;
        k += 1;
        proof {
            assert(selected@ =~= order@.take(k as int));
        }
    }
    // the first unchosen player of each line
    let ghost first = selected@;
    let ghost lines = take_lines(order@, first, positions@, max_decisions as int, 0);
    let mut line: usize = 0;
    while line < 3
        invariant
            n == order@.len(),
            line <= 3,
            forall|i: int| 0 <= i < order@.len() ==> #[trigger] order@[i] < 22,
            lines == take_lines(order@, first, positions@, max_decisions as int, 0),
            take_lines(order@, selected@, positions@, max_decisions as int, line as int) == lines,
            forall|x: int| 0 <= x < 22 ==> (#[trigger] chosen@[x] <==> selected@.contains(x as usize)),
        ensures
            selected@ == lines,
            forall|x: int| 0 <= x < 22 ==> (#[trigger] chosen@[x] <==> selected@.contains(x as usize)),
        decreases 3 - line,
    {
        if selected.len() >= max_decisions {
            break;
        }
        let lo: i32 = (line as i32) * LINE_DEPTH;
        let hi: i32 = lo + LINE_DEPTH;
        let mut best: Option<usize> = None;
        let mut j: usize = 0;
        while j < n
            invariant_except_break
                best is None,
                first_in_line(order@, 0, selected@, positions@, line as int) == first_in_line(
                    order@,
                    j as int,
                    selected@,
                    positions@,
                    line as int,
                ),
            invariant
                n == order@.len(),
                j <= n,
                line < 3,
                lo == 350 * line,
                hi == lo + 350,
                forall|i: int| 0 <= i < order@.len() ==> #[trigger] order@[i] < 22,
                forall|x: int| 0 <= x < 22 ==> (#[trigger] chosen@[x] <==> selected@.contains(x as usize)),
            ensures
                first_in_line(order@, 0, selected@, positions@, line as int) == best,
            decreases n - j,
        {
            let c = order[j];
            let px = positions[c].x;
            if !chosen[c] && px >= lo && px < hi {
                proof {
                    assert(!selected@.contains(c)) by {
                        assert(!chosen@[c as int]);
                    }
                    assert(first_in_line(order@, j as int, selected@, positions@, line as int) == Some(c));
                    assert(first_in_line(order@, 0, selected@, positions@, line as int) == Some(c));
                }
                best = Some(c);
                break;
            }
            j += 1;
        }
        proof {
            assert(selected@.len() < max_decisions);
        }
        let ghost before = selected@;
        match best {
            Some(c) => {
                proof {
                    lemma_first_in_line(order@, 0, selected@, positions@, line as int);
                    lemma_push_contains_all(selected@, c);
                }
                selected.push(c);
                chosen[c] = true;
            },
            None => {},
        }
        proof {
            assert(take_lines(order@, before, positions@, max_decisions as int, line as int) == take_lines(
                order@,
                selected@,
                positions@,
                max_decisions as int,
                line + 1,
            ));
        }
        line += 1;
    }
    // the players whose objective is due
    let mut k: usize = 0;
    while k < n
        invariant
            n == order@.len(),
            k <= n,
            forall|i: int| 0 <= i < order@.len() ==> #[trigger] order@[i] < 22,
            take_due(order@, k as int, selected@, max_decisions as int, due@) == take_due(
                order@,
                0,
                lines,
                max_decisions as int,
                due@,
            ),
            forall|x: int| 0 <= x < 22 ==> (#[trigger] chosen@[x] <==> selected@.contains(x as usize)),
        ensures
            selected@ == take_due(order@, 0, lines, max_decisions as int, due@),
        decreases n - k,
    {
        if selected.len() >= max_decisions {
            break;
        }
        let c = order[k];
        if !chosen[c] && due[c] {
            proof {
                lemma_push_contains_all(selected@, c);
            }
            selected.push(c);
            chosen[c] = true;
        }
        k += 1;
    }
    proof {
        assert(first == order@.take(proximity_quota(n as int, max_decisions as int)));
    }
    selected
}

/// Chooses the players (not the ball owner) who make an off-ball decision
/// this tick, at most 6, or 8 during a transition. The players are ranked by
/// distance to the ball, the lower index first at equal distance; the first 4
/// of the ranking always decide, then the nearest unchosen player of each
/// line (defence, midfield, attack by x), then, in ranking order, the players
/// whose objective has no intent or has expired.
pub fn select_players_for_decision(
    objectives: &[OffBallObjective; 22],
    player_positions: &[Coord10; 22],
    ball_pos: Coord10,
    ball_owner: Option<usize>,
    is_transition: bool,
    current_tick: u64,
) -> (r: Vec<usize>)
    ensures
        exists|order: Seq<usize>|
            #![trigger selection(order, player_positions@, due_flags(objectives@, current_tick), decision_quota(is_transition))]
            {
                &&& is_nearest_k_to(player_positions@, ball_pos, decision_candidates(ball_owner), 22, order)
                &&& r@ == selection(
                    order,
                    player_positions@,
                    due_flags(objectives@, current_tick),
                    decision_quota(is_transition),
                )
            },
        r@.len() <= decision_quota(is_transition),
        r@.no_duplicates(),
        forall|i: int| 0 <= i < r@.len() ==> #[trigger] r@[i] < 22 && ball_owner != Some(r@[i]),
{
    let max_decisions = if is_transition { MAX_DECISIONS_TRANSITION } else { MAX_DECISIONS_NORMAL };
    let skip: usize = match ball_owner {
        Some(o) => o,
        None => usize::MAX,
    };
    let mut candidates: Vec<usize> = Vec::new();
    for idx in 0..22
        invariant
            candidates@ == range_except(0, idx as int, skip as int),
    {
        if idx != skip {
            candidates.push(idx);
        }
    }
    proof {
        lemma_range_except_props(0, 22, skip as int);
        if ball_owner is None {
            lemma_range_except_absent(0, 22, skip as int, -1);
        }
        assert(candidates@ == decision_candidates(ball_owner));
    }
    let order = nearest_k(player_positions, ball_pos, &candidates, 22);
    let mut due = [false; 22];
    for i in 0..22
        invariant
            forall|x: int| 0 <= x < i ==> #[trigger] due@[x] == due_flags(objectives@, current_tick)[x],
    {
        let o = objectives[i];
        due[i] = !o.is_valid() || o.is_expired(current_tick);
    }
    proof {
        assert(due@ =~= due_flags(objectives@, current_tick));
        assert forall|i: int| 0 <= i < order@.len() implies #[trigger] order@[i] < 22
            && order@[i] != skip by {
            let j = choose|j: int| 0 <= j < candidates@.len() && candidates@[j] == order@[i];
        }
        assert(order@.no_duplicates()) by {
            assert forall|i: int, j: int| 0 <= i < order@.len() && 0 <= j < order@.len() && i != j implies order@[i]
                != order@[j] by {
                if i < j {
                    assert(nearer(player_positions@, ball_pos, order@[i] as int, order@[j] as int));
                } else {
                    assert(nearer(player_positions@, ball_pos, order@[j] as int, order@[i] as int));
                }
            }
        }
    }
    let r = select_from_order(&order, player_positions, &due, max_decisions);
    proof {
        assert(max_decisions as int == decision_quota(is_transition));
        assert(r@ == selection(
            order@,
            player_positions@,
            due_flags(objectives@, current_tick),
            decision_quota(is_transition),
        ));
        lemma_selection_laws(order@, player_positions@, due@, max_decisions as int);
        assert forall|i: int| 0 <= i < r@.len() implies #[trigger] r@[i] < 22 && ball_owner != Some(r@[i]) by {
            assert(r@.contains(r@[i]));
            let j = choose|j: int| 0 <= j < order@.len() && order@[j] == r@[i];
        }
    }
    r
}

} // verus!
