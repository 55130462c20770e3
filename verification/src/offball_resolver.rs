//! Collisions between the targets of off-ball objectives: two targets closer
//! than 2 m collide; a colliding target is shifted 3 m sideways or along the
//! pitch, and between two colliding objectives the weaker one gives way.
use vstd::prelude::*;
use crate::geometry::{Coord10, dist_sq, distance_sq};
use crate::offball_scheduler::{OffBallObjective, objective_valid};

verus! {

/// Distance (0.1 m) under which two targets collide.
pub const COLLISION_RADIUS: i32 = 20;

/// Step (0.1 m) by which a colliding target is shifted.
pub const COLLISION_SHIFT: i32 = 30;

/// A target collides with an objective: the objective has an intent and its
/// target lies less than 2 m away.
pub open spec fn collides_with(t: Coord10, o: OffBallObjective) -> bool {
    objective_valid(o) && dist_sq(t, o.target) < 400
}

/// A target collides with one of the objectives other than the one at
/// `exclude`.
pub open spec fn collides(t: Coord10, objs: Seq<OffBallObjective>, exclude: int) -> bool {
    exists|i: int| 0 <= i < objs.len() && i != exclude && #[trigger] collides_with(t, objs[i])
}

/// The four shifts tried in turn: 3 m up the width (at most 67 m), 3 m down
/// it (at least 1 m), 3 m forward (at most 104 m), 3 m back (at least 1 m).
pub open spec fn shifted(t: Coord10, k: int) -> Coord10 {
    if k == 0 {
        Coord10 { x: t.x, y: if t.y + 30 > 670 { 670 } else { (t.y + 30) as i32 } }
    } else if k == 1 {
        Coord10 { x: t.x, y: if t.y - 30 < 10 { 10 } else { (t.y - 30) as i32 } }
    } else if k == 2 {
        Coord10 { x: if t.x + 30 > 1040 { 1040 } else { (t.x + 30) as i32 }, y: t.y }
    } else {
        Coord10 { x: if t.x - 30 < 10 { 10 } else { (t.x - 30) as i32 }, y: t.y }
    }
}

/// Where a target ends up: itself when free, otherwise the first free shift,
/// none when every shift collides too.
pub open spec fn resolved(t: Coord10, objs: Seq<OffBallObjective>, exclude: int) -> Option<Coord10> {
    if !collides(t, objs, exclude) {
        Some(t)
    } else if !collides(shifted(t, 0), objs, exclude) {
        Some(shifted(t, 0))
    } else if !collides(shifted(t, 1), objs, exclude) {
        Some(shifted(t, 1))
    } else if !collides(shifted(t, 2), objs, exclude) {
        Some(shifted(t, 2))
    } else if !collides(shifted(t, 3), objs, exclude) {
        Some(shifted(t, 3))
    } else {
        None
    }
}

/// Whether a target collides with an objective other than the one at
/// `exclude_idx`: one with an intent whose target lies within 2 m.
pub fn check_collision(target: Coord10, existing: &[OffBallObjective], exclude_idx: usize) -> (r: bool)
    ensures
        r == collides(target, existing@, exclude_idx as int),
{
    let n = existing.len();
    for i in 0..n
        invariant
            n == existing@.len(),
            forall|j: int| 0 <= j < i && j != exclude_idx ==> !#[trigger] collides_with(target, existing@[j]),
    {
        if i != exclude_idx {
            let o = existing[i];
            if o.is_valid() && distance_sq(target, o.target) < 400 {
                assert(collides_with(target, existing@[i as int]));
                return true;
            }
        }
    }
    false
}

fn shift(t: Coord10, k: usize) -> (r: Coord10)
    requires
        k < 4,
    ensures
        r == shifted(t, k as int),
{
    if k == 0 {
        let y = t.y as i64 + 30;
        Coord10 { x: t.x, y: if y > 670 { 670 } else { y as i32 } }
    } else if k == 1 {
        let y = t.y as i64 - 30;
        Coord10 { x: t.x, y: if y < 10 { 10 } else { y as i32 } }
    } else if k == 2 {
        let x = t.x as i64 + 30;
        Coord10 { x: if x > 1040 { 1040 } else { x as i32 }, y: t.y }
    } else {
        let x = t.x as i64 - 30;
        Coord10 { x: if x < 10 { 10 } else { x as i32 }, y: t.y }
    }
}

/// Moves a target off the others: unchanged when it collides with none,
/// otherwise the first free shift of 3 m (up, down the width, forward, back,
/// each kept on the pitch); `None` when all of them collide.
pub fn resolve_collision(target: Coord10, existing: &[OffBallObjective], exclude_idx: usize) -> (r: Option<Coord10>)
    ensures
        r == resolved(target, existing@, exclude_idx as int),
        r matches Some(p) ==> !collides(p, existing@, exclude_idx as int),
{
    if !check_collision(target, existing, exclude_idx) {
        return Some(target);
    }
    for k in 0..4usize
        invariant
            collides(target, existing@, exclude_idx as int),
            forall|j: int| 0 <= j < k ==> collides(#[trigger] shifted(target, j), existing@, exclude_idx as int),
    {
        let p = shift(target, k);
        if !check_collision(p, existing, exclude_idx) {
            proof {
                assert(collides(shifted(target, 0), existing@, exclude_idx as int) || k == 0);
            }
            return Some(p);
        }
    }
    proof {
        assert(collides(shifted(target, 0), existing@, exclude_idx as int));
        assert(collides(shifted(target, 1), existing@, exclude_idx as int));
        assert(collides(shifted(target, 2), existing@, exclude_idx as int));
        assert(collides(shifted(target, 3), existing@, exclude_idx as int));
    }
    None
}

/// The objective that gives way when two collide: none unless both have an
/// intent and their targets lie within 2 m; otherwise the one of lower
/// priority, and at equal priority the one of lower confidence (the second
/// at equal confidence).
pub open spec fn conflict_loser(a_idx: usize, a: OffBallObjective, b_idx: usize, b: OffBallObjective) -> Option<usize> {
    if !objective_valid(a) || !objective_valid(b) || dist_sq(a.target, b.target) >= 400 {
        None
    } else if a.priority < b.priority {
        Some(a_idx)
    } else if b.priority < a.priority {
        Some(b_idx)
    } else if a.confidence < b.confidence {
        Some(a_idx)
    } else {
        Some(b_idx)
    }
}

/// Which of two objectives gives way, as `conflict_loser` states it.
pub fn resolve_priority_conflict(
    obj_a_idx: usize,
    obj_a: &OffBallObjective,
    obj_b_idx: usize,
    obj_b: &OffBallObjective,
) -> (r: Option<usize>)
    ensures
        r == conflict_loser(obj_a_idx, *obj_a, obj_b_idx, *obj_b),
{
    if !obj_a.is_valid() || !obj_b.is_valid() {
        return None;
    }
    if distance_sq(obj_a.target, obj_b.target) >= 400 {
        return None;
    }
    if obj_a.priority < obj_b.priority {
        Some(obj_a_idx)
    } else if obj_b.priority < obj_a.priority {
        Some(obj_b_idx)
    } else if obj_a.confidence < obj_b.confidence {
        Some(obj_a_idx)
    } else {
        Some(obj_b_idx)
    }
}

/// The loser of a conflict is one of the two and never has the higher
/// priority; the conflict does not depend on the order of the two, except
/// that with equal priority and confidence the second one gives way.
pub proof fn lemma_conflict_loser(a_idx: usize, a: OffBallObjective, b_idx: usize, b: OffBallObjective)
    ensures
        conflict_loser(a_idx, a, b_idx, b) matches Some(l) ==> (l == a_idx || l == b_idx),
        conflict_loser(a_idx, a, b_idx, b) == Some(a_idx) && a_idx != b_idx ==> a.priority <= b.priority,
        conflict_loser(a_idx, a, b_idx, b) == Some(b_idx) && a_idx != b_idx ==> b.priority <= a.priority,
        conflict_loser(a_idx, a, b_idx, b).is_some() == conflict_loser(b_idx, b, a_idx, a).is_some(),
        (a.priority != b.priority || a.confidence != b.confidence) ==> conflict_loser(a_idx, a, b_idx, b)
            == conflict_loser(b_idx, b, a_idx, a),
{
    let (ax, ay, bx, by) = (a.target.x as int, a.target.y as int, b.target.x as int, b.target.y as int);
    assert((ax - bx) * (ax - bx) == (bx - ax) * (bx - ax)) by (nonlinear_arith);
    assert((ay - by) * (ay - by) == (by - ay) * (by - ay)) by (nonlinear_arith);
}

} // verus!
