use vstd::prelude::*;

use crate::action::ActionType;
use crate::ai::{
    advance_action_state, chase_regen_answer, escape_regen_answer, follow_outcome, follow_path,
    wander_regen_answer, AIBehavior, AIBehaviorType, ActionState,
    ActionStep, ChasePlayerAction, FleeFromPlayerAction, WanderAction, WanderArea, WanderType,
};
use crate::position::{
    away, calculate_direction_away_from_target, calculate_direction_to_target, dir_delta, dist2,
    in_attack_range,
    toward, Direction, Position,
};
use crate::rng::{random_range, thread_random_index};
use crate::turn_actor::TurnActor;

verus! {

/// Both coordinates of `p` are at least `m` away from the `i32` limits.
pub open spec fn within(p: Position, m: int) -> bool {
    &&& i32::MIN + m <= p.x <= i32::MAX - m
    &&& i32::MIN + m <= p.y <= i32::MAX - m
}

/// `t` lies within `m` cells of `p` on each axis.
pub open spec fn near(p: Position, t: Position, m: int) -> bool {
    &&& p.x - m <= t.x <= p.x + m
    &&& p.y - m <= t.y <= p.y + m
}

/// `new` is `old` after `queue_action(a)`: `a` appended to the regular queue
/// unless the queue is full.
pub open spec fn queued_after(old: TurnActor, new: TurnActor, a: ActionType) -> bool {
    &&& new.same_settings(&old)
    &&& new.forced_actions@ == old.forced_actions@
    &&& new.preferred_action == old.preferred_action
    &&& new.actions@ == (if old.actions@.len() < old.max_queued_actions {
        old.actions@.push(a)
    } else {
        old.actions@
    })
}

/// `new` is `old` after queuing a one-cell move in some direction.
pub open spec fn moved_one_step(old: TurnActor, new: TurnActor) -> bool {
    exists|d: Direction| #[trigger] queued_after(old, new, ActionType::MoveDelta(d))
}

/// Queues a one-cell move in direction `d` (dropped when the queue is full).
pub fn queue_move_delta(actor: &mut TurnActor, d: Direction)
    ensures
        queued_after(*old(actor), *final(actor), ActionType::MoveDelta(d)),
{
    let _ = actor.queue_action(ActionType::MoveDelta(d));
}

// ---------------------------------------------------------------------------
// Wandering
// ---------------------------------------------------------------------------

/// The walkability test answered for `c` in a way that does not accept it:
/// "not walkable", or "walkable" where that alone is not `enough`.
pub open spec fn declined<W: Fn(Position) -> bool>(w: W, c: Position, enough: bool) -> bool {
    exists|b: bool| #[trigger] w.ensures((c,), b) && !(b && enough)
}

/// How a search of random cells near `ai_pos` for a wander target went:
/// `cells` were drawn in order, each within 5 of `ai_pos`, and every one
/// before the last was declined (not walkable, or `ai_pos` itself). With
/// `Some(t)` the last cell is `t`, walkable and not `ai_pos`; with `None` all
/// 20 cells were drawn and declined.
pub open spec fn random_wander_search<W: Fn(Position) -> bool>(
    w: W,
    ai_pos: Position,
    cells: Seq<Position>,
    r: Option<Position>,
) -> bool {
    &&& cells.len() <= 20
    &&& forall|j: int| 0 <= j < cells.len() ==> near(ai_pos, #[trigger] cells[j], 5)
    &&& match r {
        Some(t) => {
            &&& 1 <= cells.len()
            &&& cells.last() == t
            &&& w.ensures((t,), true)
            &&& t != ai_pos
            &&& forall|j: int|
                0 <= j < cells.len() - 1 ==> declined(w, #[trigger] cells[j], cells[j] != ai_pos)
        },
        None => {
            &&& cells.len() == 20
            &&& forall|j: int|
                0 <= j < cells.len() ==> declined(w, #[trigger] cells[j], cells[j] != ai_pos)
        },
    }
}

/// Tries 20 random cells within 5 of `ai_pos` on each axis and returns the
/// first walkable one other than `ai_pos`.
pub fn select_random_wander_target<W: Fn(Position) -> bool>(
    ai_pos: Position,
    is_walkable: &W,
    rng: &mut rand::rngs::ThreadRng,
) -> (r: Option<Position>)
    requires
        within(ai_pos, 5),
        forall|p: Position| #[trigger] is_walkable.requires((p,)),
    ensures
        r matches Some(t) ==> is_walkable.ensures((t,), true) && t != ai_pos && near(ai_pos, t, 5),
        exists|cells: Seq<Position>| #[trigger] random_wander_search(*is_walkable, ai_pos, cells, r),
{
    let ghost mut cells: Seq<Position> = Seq::empty();
    let mut i: u32 = 0;
    while i < 20
        invariant
            within(ai_pos, 5),
            forall|p: Position| #[trigger] is_walkable.requires((p,)),
            i <= 20,
            cells.len() == i,
            forall|j: int| 0 <= j < cells.len() ==> near(ai_pos, #[trigger] cells[j], 5),
            forall|j: int|
                0 <= j < cells.len() ==> declined(*is_walkable, #[trigger] cells[j], cells[j] != ai_pos),
        decreases 20 - i,
    {
        let dx = random_range(rng, -5, 6);
        let dy = random_range(rng, -5, 6);
        let target = Position::new(ai_pos.x + dx, ai_pos.y + dy);
        let ok = is_walkable(target);
        proof {
            cells = cells.push(target);
        }
        if ok && target != ai_pos {
            assert(random_wander_search(*is_walkable, ai_pos, cells, Some(target)));
            return Some(target);
        }
        assert(declined(*is_walkable, target, target != ai_pos));
        i = i + 1;
    }
    assert(random_wander_search(*is_walkable, ai_pos, cells, None));
    None
}

/// The test on `c` declined it (not walkable, or `ai_pos` itself), or `c` is
/// nearer to `ai_pos` than squared distance `d`: strictly nearer when
/// `strict`, else not farther.
pub open spec fn not_preferred<W: Fn(Position) -> bool>(
    w: W,
    ai_pos: Position,
    c: Position,
    d: int,
    strict: bool,
) -> bool {
    exists|b: bool|
        #[trigger] w.ensures((c,), b) && (!(b && c != ai_pos) || (if strict {
            dist2(ai_pos, c) < d
        } else {
            dist2(ai_pos, c) <= d
        }))
}

/// How the search for an exploration target went: 25 cells were drawn
/// within 8 of `ai_pos` and each was tested. With `Some(t)`, `t` is one of
/// them, walkable and not `ai_pos`, and the farthest such: every cell before
/// it was declined or strictly nearer, every cell after it declined or not
/// farther. With `None` every cell was declined.
pub open spec fn exploration_search<W: Fn(Position) -> bool>(
    w: W,
    ai_pos: Position,
    cells: Seq<Position>,
    r: Option<Position>,
) -> bool {
    &&& cells.len() == 25
    &&& forall|j: int| 0 <= j < cells.len() ==> near(ai_pos, #[trigger] cells[j], 8)
    &&& match r {
        Some(t) => exists|k: int|
            {
                &&& 0 <= k < 25
                &&& #[trigger] cells[k] == t
                &&& w.ensures((t,), true)
                &&& t != ai_pos
                &&& forall|j: int|
                    0 <= j < k ==> not_preferred(w, ai_pos, #[trigger] cells[j], dist2(ai_pos, t), true)
                &&& forall|j: int|
                    k < j < 25 ==> not_preferred(w, ai_pos, #[trigger] cells[j], dist2(ai_pos, t), false)
            },
        None => forall|j: int|
            0 <= j < cells.len() ==> declined(w, #[trigger] cells[j], cells[j] != ai_pos),
    }
}

/// Two distinct cells are at a positive squared distance.
proof fn lemma_dist2_positive(a: Position, b: Position)
    requires
        a != b,
    ensures
        dist2(a, b) > 0,
{
    let dx = a.x - b.x;
    let dy = a.y - b.y;
    assert(dx != 0 || dy != 0);
    assert(dx * dx + dy * dy > 0) by (nonlinear_arith)
        requires
            dx != 0 || dy != 0,
    ;
}

/// Tries 25 random cells within 8 of `ai_pos` on each axis and returns the
/// walkable one, other than `ai_pos`, farthest from it (the first found among
/// equally far ones).
pub fn select_exploration_target<W: Fn(Position) -> bool>(
    ai_pos: Position,
    is_walkable: &W,
    rng: &mut rand::rngs::ThreadRng,
) -> (r: Option<Position>)
    requires
        within(ai_pos, 8),
        forall|p: Position| #[trigger] is_walkable.requires((p,)),
    ensures
        r matches Some(t) ==> is_walkable.ensures((t,), true) && t != ai_pos && near(ai_pos, t, 8),
        exists|cells: Seq<Position>| #[trigger] exploration_search(*is_walkable, ai_pos, cells, r),
{
    let ghost mut cells: Seq<Position> = Seq::empty();
    let ghost mut answers: Seq<bool> = Seq::empty();
    let ghost mut best_index: int = 0;
    let mut best_target: Option<Position> = None;
    let mut best_distance: i128 = 0;
    let mut i: u32 = 0;
    while i < 25
        invariant
            within(ai_pos, 8),
            forall|p: Position| #[trigger] is_walkable.requires((p,)),
            i <= 25,
            cells.len() == i,
            answers.len() == i,
            forall|j: int| 0 <= j < cells.len() ==> near(ai_pos, #[trigger] cells[j], 8),
            forall|j: int| 0 <= j < cells.len() ==> is_walkable.ensures((#[trigger] cells[j],), answers[j]),
            best_target is None ==> best_distance == 0 && forall|j: int|
                0 <= j < cells.len() ==> !(#[trigger] answers[j] && cells[j] != ai_pos),
            best_target matches Some(t) ==> {
                &&& 0 <= best_index < cells.len()
                &&& cells[best_index] == t
                &&& answers[best_index]
                &&& t != ai_pos
                &&& near(ai_pos, t, 8)
                &&& best_distance == dist2(ai_pos, t)
                &&& forall|j: int|
                    0 <= j < best_index ==> !(#[trigger] answers[j] && cells[j] != ai_pos) || dist2(
                        ai_pos,
                        cells[j],
                    ) < best_distance
                &&& forall|j: int|
                    best_index < j < cells.len() ==> !(#[trigger] answers[j] && cells[j] != ai_pos)
                        || dist2(ai_pos, cells[j]) <= best_distance
            },
        decreases 25 - i,
    {
        let dx = random_range(rng, -8, 9);
        let dy = random_range(rng, -8, 9);
        let target = Position::new(ai_pos.x + dx, ai_pos.y + dy);
        let ok = is_walkable(target);
        proof {
            cells = cells.push(target);
            answers = answers.push(ok);
        }
        if ok && target != ai_pos {
            let distance = ai_pos.distance_squared(&target);
            proof {
                lemma_dist2_positive(ai_pos, target);
            }
            if distance > best_distance {
                best_distance = distance;
                best_target = Some(target);
                proof {
                    best_index = cells.len() - 1;
                }
            }
        }
        i = i + 1;
    }
    proof {
        match best_target {
            Some(t) => {
                assert forall|j: int| 0 <= j < best_index implies not_preferred(
                    *is_walkable,
                    ai_pos,
                    #[trigger] cells[j],
                    dist2(ai_pos, t),
                    true,
                ) by {
                    assert(is_walkable.ensures((cells[j],), answers[j]));
                }
                assert forall|j: int| best_index < j < 25 implies not_preferred(
                    *is_walkable,
                    ai_pos,
                    #[trigger] cells[j],
                    dist2(ai_pos, t),
                    false,
                ) by {
                    assert(is_walkable.ensures((cells[j],), answers[j]));
                }
                assert(cells[best_index] == t);
            },
            None => {
                assert forall|j: int| 0 <= j < cells.len() implies declined(
                    *is_walkable,
                    #[trigger] cells[j],
                    cells[j] != ai_pos,
                ) by {
                    assert(is_walkable.ensures((cells[j],), answers[j]));
                }
            },
        }
        assert(exploration_search(*is_walkable, ai_pos, cells, best_target));
    }
    best_target
}

/// Every sample lies at least `m` away from the `i32` limits.
pub open spec fn samples_within(samples: Seq<(i32, i32)>, m: int) -> bool {
    forall|i: int|
        0 <= i < samples.len() ==> within(Position { x: (#[trigger] samples[i]).0, y: samples[i].1 }, m)
}

/// `t` lies within 2 cells (on each axis) of one of the sampled points.
pub open spec fn near_sample(samples: Seq<(i32, i32)>, t: Position) -> bool {
    exists|i: int|
        0 <= i < samples.len() && #[trigger] near(Position { x: samples[i].0, y: samples[i].1 }, t, 2)
}

/// The `k`-th cell tried around sample point `s` (`k < 26`): the point
/// itself, then the 25 cells within 2 of it, column by column from offset
/// (-2, -2) to (2, 2).
pub open spec fn probe_around(s: (i32, i32), k: int) -> Position {
    if k == 0 {
        Position { x: s.0, y: s.1 }
    } else {
        Position { x: (s.0 + (k - 1) / 5 - 2) as i32, y: (s.1 + (k - 1) % 5 - 2) as i32 }
    }
}

/// Probe `k` around sample `i` was declined: the test said "not walkable",
/// or the probe is the sample point itself and that is the `avoid`ed cell.
pub open spec fn probe_declined<W: Fn(Position) -> bool>(
    w: W,
    samples: Seq<(i32, i32)>,
    avoid: Option<Position>,
    i: int,
    k: int,
) -> bool {
    let c = probe_around(samples[i], k);
    declined(w, c, !(k == 0 && avoid == Some(c)))
}

/// Every probe before probe `k` of sample `i` was declined: all probes of
/// the samples before `i` and the first `k` probes of sample `i`.
pub open spec fn probes_declined_before<W: Fn(Position) -> bool>(
    w: W,
    samples: Seq<(i32, i32)>,
    avoid: Option<Position>,
    i: int,
    k: int,
) -> bool {
    forall|i2: int, k2: int|
        0 <= i2 < samples.len() && 0 <= k2 < 26 && (i2 < i || (i2 == i && k2 < k))
            ==> #[trigger] probe_declined(w, samples, avoid, i2, k2)
}

/// `t` is probe `k` of sample `i` and the first probe accepted: walkable,
/// not the `avoid`ed cell when it is the sample point itself, and every
/// earlier probe declined.
pub open spec fn first_probe_hit<W: Fn(Position) -> bool>(
    w: W,
    samples: Seq<(i32, i32)>,
    avoid: Option<Position>,
    i: int,
    k: int,
    t: Position,
) -> bool {
    &&& 0 <= i < samples.len()
    &&& 0 <= k < 26
    &&& t == probe_around(samples[i], k)
    &&& w.ensures((t,), true)
    &&& !(k == 0 && avoid == Some(t))
    &&& probes_declined_before(w, samples, avoid, i, k)
}

/// The search around the samples found `r`: the first probe accepted.
pub open spec fn probe_search_found<W: Fn(Position) -> bool>(
    w: W,
    samples: Seq<(i32, i32)>,
    avoid: Option<Position>,
    r: Option<Position>,
) -> bool {
    exists|i: int, k: int, t: Position|
        r == Some(t) && #[trigger] first_probe_hit(w, samples, avoid, i, k, t)
}

/// Probe `1 + 5 * (ox + 2) + (oy + 2)` around `s` is the cell at offset
/// (ox, oy) from it.
proof fn lemma_probe_offset(s: (i32, i32), ox: int, oy: int)
    requires
        -2 <= ox <= 2,
        -2 <= oy <= 2,
        within(Position { x: s.0, y: s.1 }, 2),
    ensures
        probe_around(s, 1 + 5 * (ox + 2) + (oy + 2)) == (Position {
            x: (s.0 + ox) as i32,
            y: (s.1 + oy) as i32,
        }),
{
    let m = 5 * (ox + 2) + (oy + 2);
    assert(m / 5 == ox + 2 && m % 5 == oy + 2) by (nonlinear_arith)
        requires
            m == 5 * (ox + 2) + (oy + 2),
            0 <= ox + 2 < 5,
            0 <= oy + 2 < 5,
    ;
}

/// The probes declined before (i, k) and probe (i, k) itself make the probes
/// declined before (i, k + 1); after the last probe of a sample, those before
/// the next sample.
proof fn lemma_probes_declined_step<W: Fn(Position) -> bool>(
    w: W,
    samples: Seq<(i32, i32)>,
    avoid: Option<Position>,
    i: int,
    k: int,
)
    requires
        0 <= i < samples.len(),
        0 <= k < 26,
        probes_declined_before(w, samples, avoid, i, k),
        probe_declined(w, samples, avoid, i, k),
    ensures
        probes_declined_before(w, samples, avoid, i, k + 1),
        k == 25 ==> probes_declined_before(w, samples, avoid, i + 1, 0),
{
}

/// Picks a target in the wander area from the sampled points (one per try,
/// drawn in the area): the first sample that is walkable and not `ai_pos`, or
/// else the first walkable cell within 2 of that sample; when every sample
/// fails, a random nearby target. No area: `None`.
pub fn select_area_wander_target<W: Fn(Position) -> bool>(
    wander_area: &Option<WanderArea>,
    ai_pos: Position,
    area_samples: &Vec<(i32, i32)>,
    is_walkable: &W,
    rng: &mut rand::rngs::ThreadRng,
) -> (r: Option<Position>)
    requires
        within(ai_pos, 5),
        samples_within(area_samples@, 2),
        forall|p: Position| #[trigger] is_walkable.requires((p,)),
    ensures
        wander_area is None ==> r is None,
        r matches Some(t) ==> is_walkable.ensures((t,), true) && (near_sample(area_samples@, t) || (
        t != ai_pos && near(ai_pos, t, 5))),
        wander_area is Some ==> probe_search_found(*is_walkable, area_samples@, Some(ai_pos), r) || (
        probes_declined_before(
            *is_walkable,
            area_samples@,
            Some(ai_pos),
            area_samples@.len() as int,
            0,
        ) && exists|cells: Seq<Position>|
            #[trigger] random_wander_search(*is_walkable, ai_pos, cells, r)),
{
    if wander_area.is_none() {
        return None;
    }
    let ghost w = *is_walkable;
    let ghost avoid = Some(ai_pos);
    let n = area_samples.len();
    let mut i: usize = 0;
    while i < n
        invariant
            n == area_samples@.len(),
            i <= n,
            wander_area is Some,
            samples_within(area_samples@, 2),
            forall|p: Position| #[trigger] is_walkable.requires((p,)),
            w == *is_walkable,
            avoid == Some(ai_pos),
            probes_declined_before(w, area_samples@, avoid, i as int, 0),
        decreases n - i,
    {
        let (target_x, target_y) = area_samples[i];
        assert(within(Position { x: area_samples@[i as int].0, y: area_samples@[i as int].1 }, 2));
        let target = Position::new(target_x, target_y);
        assert(near(Position { x: area_samples@[i as int].0, y: area_samples@[i as int].1 }, target, 2));
        let ok = is_walkable(target);
        if ok && target != ai_pos {
            assert(first_probe_hit(*is_walkable, area_samples@, Some(ai_pos), i as int, 0, target));
            return Some(target);
        }
        assert(probe_declined(w, area_samples@, avoid, i as int, 0));
        proof {
            lemma_probes_declined_step(w, area_samples@, avoid, i as int, 0);
        }
        let mut offset_x: i32 = -2;
        while offset_x <= 2
            invariant
                -2 <= offset_x <= 3,
                within(target, 2),
                target_x == target.x,
                target_y == target.y,
                wander_area is Some,
                0 <= i < area_samples@.len(),
                target == (Position { x: area_samples@[i as int].0, y: area_samples@[i as int].1 }),
                forall|p: Position| #[trigger] is_walkable.requires((p,)),
                w == *is_walkable,
                avoid == Some(ai_pos),
                probes_declined_before(w, area_samples@, avoid, i as int, 1 + 5 * (offset_x + 2)),
            decreases 3 - offset_x,
        {
            let mut offset_y: i32 = -2;
            while offset_y <= 2
                invariant
                    -2 <= offset_x <= 2,
                    -2 <= offset_y <= 3,
                    within(target, 2),
                    target_x == target.x,
                    target_y == target.y,
                    wander_area is Some,
                    0 <= i < area_samples@.len(),
                    target == (Position { x: area_samples@[i as int].0, y: area_samples@[i as int].1 }),
                    forall|p: Position| #[trigger] is_walkable.requires((p,)),
                    w == *is_walkable,
                    avoid == Some(ai_pos),
                    probes_declined_before(
                        w,
                        area_samples@,
                        avoid,
                        i as int,
                        1 + 5 * (offset_x + 2) + (offset_y + 2),
                    ),
                decreases 3 - offset_y,
            {
                let variant_pos = Position::new(target_x + offset_x, target_y + offset_y);
                let ghost k = 1 + 5 * (offset_x + 2) + (offset_y + 2);
                proof {
                    lemma_probe_offset(area_samples@[i as int], offset_x as int, offset_y as int);
                }
                assert(probe_around(area_samples@[i as int], k) == variant_pos);
                let ok = is_walkable(variant_pos);
                if ok {
                    assert(near(target, variant_pos, 2));
                    assert(first_probe_hit(*is_walkable, area_samples@, Some(ai_pos), i as int, k, variant_pos));
                    return Some(variant_pos);
                }
                assert(probe_declined(w, area_samples@, avoid, i as int, k));
                proof {
                    lemma_probes_declined_step(w, area_samples@, avoid, i as int, k);
                }
                offset_y = offset_y + 1;
            }
            offset_x = offset_x + 1;
        }
        i = i + 1;
    }
    select_random_wander_target(ai_pos, is_walkable, rng)
}

/// Patrol target: with no patrol points, or a patrol index past them,
/// `None`; when the actor stands on the current patrol point the index moves
/// to the next point (cyclically); the point at the index is returned.
pub open spec fn patrol_outcome(points: Seq<Position>, idx: int, ai_pos: Position) -> (
    Option<Position>,
    int,
) {
    if points.len() == 0 || idx >= points.len() {
        (None, idx)
    } else if points[idx] == ai_pos {
        let next = (idx + 1) % (points.len() as int);
        (Some(points[next]), next)
    } else {
        (Some(points[idx]), idx)
    }
}

/// Fields of a wander action other than the path, its index, the target and
/// the position the path was made from.
pub open spec fn same_wander_setup(a: &WanderAction, b: &WanderAction) -> bool {
    &&& a.wander_type == b.wander_type
    &&& a.patrol_points@ == b.patrol_points@
    &&& a.current_patrol_index == b.current_patrol_index
    &&& a.last_target_time == b.last_target_time
    &&& a.wander_area.is_some() == b.wander_area.is_some()
}

/// `r` is the wander target picked from `w0` (which becomes `w1`) by its
/// wander type: a random search (`random_wander_search`), an area search
/// (no area: `None`), the next patrol point (`patrol_outcome`) or an
/// exploration search (`exploration_search`). A found target records
/// `current_turn` as the time of the last target; the path, the target and
/// the other settings stay.
pub open spec fn wander_target_chosen<W: Fn(Position) -> bool>(
    w0: WanderAction,
    w1: WanderAction,
    ai_pos: Position,
    is_walkable: W,
    current_turn: u64,
    area_samples: Seq<(i32, i32)>,
    r: Option<Position>,
) -> bool {
    &&& w1.wander_type == w0.wander_type
    &&& w1.patrol_points@ == w0.patrol_points@
    &&& w1.current_path@ == w0.current_path@
    &&& w1.path_index == w0.path_index
    &&& w1.current_target == w0.current_target
    &&& w1.ai_pos_when_path_generated == w0.ai_pos_when_path_generated
    &&& w1.wander_area == w0.wander_area
    &&& w1.last_target_time == (if r is Some {
        Some(current_turn)
    } else {
        w0.last_target_time
    })
    &&& w0.wander_type != WanderType::Patrol ==> w1.current_patrol_index == w0.current_patrol_index
        && (r matches Some(t) ==> is_walkable.ensures((t,), true))
    &&& match w0.wander_type {
        WanderType::Random => exists|cells: Seq<Position>|
            #[trigger] random_wander_search(is_walkable, ai_pos, cells, r),
        WanderType::AreaWander => (w0.wander_area is None ==> r is None) && (w0.wander_area is Some
            ==> probe_search_found(is_walkable, area_samples, Some(ai_pos), r) || (
        probes_declined_before(is_walkable, area_samples, Some(ai_pos), area_samples.len() as int, 0)
            && exists|cells: Seq<Position>|
            #[trigger] random_wander_search(is_walkable, ai_pos, cells, r))),
        WanderType::Patrol => (r, w1.current_patrol_index as int) == patrol_outcome(
            w0.patrol_points@,
            w0.current_patrol_index as int,
            ai_pos,
        ),
        WanderType::Explore => exists|cells: Seq<Position>|
            #[trigger] exploration_search(is_walkable, ai_pos, cells, r),
    }
}

/// `w1` is `w0` after storing `target` and the path found to it: with a
/// path, the path (index 0) and the actor's position are recorded; without
/// one, the old path is dropped. The settings stay.
pub open spec fn wander_path_installed(
    w0: WanderAction,
    w1: WanderAction,
    ai_pos: Position,
    target: Position,
    path: Option<Vec<Position>>,
) -> bool {
    &&& same_wander_setup(&w1, &w0)
    &&& w1.current_target == Some(target)
    &&& match path {
        Some(p) => w1.current_path@ == p@ && w1.path_index == 0 && w1.ai_pos_when_path_generated
            == Some(ai_pos),
        None => w1.current_path@.len() == 0 && w1.path_index == w0.path_index
            && w1.ai_pos_when_path_generated == w0.ai_pos_when_path_generated,
    }
}

/// What `start_wander` does (`w0` becoming `w1`, the actor `a0` becoming
/// `a1`): no target, failure and nothing changes; otherwise the target and
/// path are stored and, with a path of at least two cells, the actor moves
/// toward its second cell (index 1) or fails when it stands there, a shorter
/// path meaning the target is reached; without a path the actor moves
/// straight toward the target, or fails when it stands on it.
pub open spec fn wander_started(
    w0: WanderAction,
    w1: WanderAction,
    a0: TurnActor,
    a1: TurnActor,
    ai_pos: Position,
    target: Option<Position>,
    path: Option<Vec<Position>>,
    state: ActionState,
) -> bool {
    match target {
        None => state == ActionState::Failure && w1 == w0 && a1 == a0,
        Some(t) => {
            &&& same_wander_setup(&w1, &w0)
            &&& w1.current_target == Some(t)
            &&& match path {
                Some(p) => {
                    &&& w1.current_path@ == p@
                    &&& w1.ai_pos_when_path_generated == Some(ai_pos)
                    &&& if p@.len() > 1 {
                        match toward(ai_pos, p@[1]) {
                            Some(d) => state == ActionState::Executing && w1.path_index == 1
                                && queued_after(a0, a1, ActionType::MoveDelta(d)),
                            None => state == ActionState::Failure && w1.path_index == 0 && a1 == a0,
                        }
                    } else {
                        state == ActionState::Success && w1.path_index == 0 && a1 == a0
                    }
                },
                None => {
                    &&& w1.current_path@.len() == 0
                    &&& w1.path_index == w0.path_index
                    &&& w1.ai_pos_when_path_generated == w0.ai_pos_when_path_generated
                    &&& match toward(ai_pos, t) {
                        Some(d) => state == ActionState::Executing && queued_after(
                            a0,
                            a1,
                            ActionType::MoveDelta(d),
                        ),
                        None => state == ActionState::Failure && a1 == a0,
                    }
                },
            }
        },
    }
}

/// What `continue_wander` does (`w0` becoming `w1`, the actor `a0` becoming
/// `a1`): the target is the stored one (the actor's own cell when none);
/// standing on it is success; otherwise the actor moves the way following
/// the stored path gives (fails when there is none), or, without a path,
/// straight toward the target. Only the path index may change.
pub open spec fn wander_continued<W: Fn(Position) -> bool>(
    w0: WanderAction,
    w1: WanderAction,
    a0: TurnActor,
    a1: TurnActor,
    ai_pos: Position,
    is_walkable: W,
    state: ActionState,
) -> bool {
    &&& same_wander_setup(&w1, &w0)
    &&& w1.current_path@ == w0.current_path@
    &&& w1.current_target == w0.current_target
    &&& w1.ai_pos_when_path_generated == w0.ai_pos_when_path_generated
    &&& {
        let target = match w0.current_target {
            Some(t) => t,
            None => ai_pos,
        };
        if target == ai_pos {
            state == ActionState::Success && a1 == a0 && w1.path_index == w0.path_index
        } else if w0.current_path@.len() > 0 {
            exists|r: Option<Direction>|
                #[trigger] follow_outcome(
                    w0.current_path@,
                    w0.path_index as int,
                    ai_pos,
                    is_walkable,
                    r,
                    w1.path_index as int,
                ) && match r {
                    Some(d) => state == ActionState::Executing && queued_after(
                        a0,
                        a1,
                        ActionType::MoveDelta(d),
                    ),
                    None => state == ActionState::Failure && a1 == a0,
                }
        } else {
            w1.path_index == w0.path_index && match toward(ai_pos, target) {
                Some(d) => state == ActionState::Executing && queued_after(
                    a0,
                    a1,
                    ActionType::MoveDelta(d),
                ),
                None => state == ActionState::Failure && a1 == a0,
            }
        }
    }
}

/// Before a running wander goes on, when `should_regenerate_wander_path`
/// says so a new target is picked and, when one is found, it is stored with
/// the path `find_path` gives for (actor, target); `w0` becomes `w1`.
pub open spec fn wander_path_refreshed<W: Fn(Position) -> bool, P: Fn(Position, Position) -> Option<Vec<Position>>>(
    w0: WanderAction,
    w1: WanderAction,
    ai_pos: Position,
    is_walkable: W,
    find_path: P,
    current_turn: u64,
    area_samples: Seq<(i32, i32)>,
) -> bool {
    exists|regen: bool|
        #[trigger] wander_regen_answer(w0, ai_pos, is_walkable, current_turn, regen) && if regen {
            exists|wm: WanderAction, r: Option<Position>|
                #[trigger] wander_target_chosen(w0, wm, ai_pos, is_walkable, current_turn, area_samples, r)
                    && match r {
                    Some(t) => exists|p: Option<Vec<Position>>|
                        #[trigger] find_path.ensures((ai_pos, t), p) && wander_path_installed(
                            wm,
                            w1,
                            ai_pos,
                            t,
                            p,
                        ),
                    None => w1 == wm,
                }
        } else {
            w1 == w0
        }
}

impl WanderAction {
    /// Next patrol point; see `patrol_outcome`.
    pub fn select_patrol_target(&mut self, ai_pos: Position) -> (r: Option<Position>)
        ensures
            (r, final(self).current_patrol_index as int) == patrol_outcome(
                old(self).patrol_points@,
                old(self).current_patrol_index as int,
                ai_pos,
            ),
            final(self).wander_type == old(self).wander_type,
            final(self).patrol_points@ == old(self).patrol_points@,
            final(self).current_path@ == old(self).current_path@,
            final(self).path_index == old(self).path_index,
            final(self).current_target == old(self).current_target,
            final(self).ai_pos_when_path_generated == old(self).ai_pos_when_path_generated,
            final(self).last_target_time == old(self).last_target_time,
            final(self).wander_area == old(self).wander_area,
    {
        let n = self.patrol_points.len();
        if n == 0 || self.current_patrol_index >= n {
            return None;
        }
        if self.patrol_points[self.current_patrol_index] == ai_pos {
            self.current_patrol_index = (self.current_patrol_index + 1) % n;
        }
        Some(self.patrol_points[self.current_patrol_index])
    }

    /// Picks the next wander target by the wander type (random, area, patrol
    /// or exploration target) and, when one is found, records
    /// `current_turn` as the time of the last target.
    pub fn select_wander_target<W: Fn(Position) -> bool>(
        &mut self,
        ai_pos: Position,
        is_walkable: &W,
        current_turn: u64,
        rng: &mut rand::rngs::ThreadRng,
        area_samples: &Vec<(i32, i32)>,
    ) -> (r: Option<Position>)
        requires
            within(ai_pos, 8),
            samples_within(area_samples@, 2),
            forall|p: Position| #[trigger] is_walkable.requires((p,)),
        ensures
            wander_target_chosen(
                *old(self),
                *final(self),
                ai_pos,
                *is_walkable,
                current_turn,
                area_samples@,
                r,
            ),
    {
        let r = match self.wander_type {
            WanderType::Random => select_random_wander_target(ai_pos, is_walkable, rng),
            WanderType::AreaWander => select_area_wander_target(
                &self.wander_area,
                ai_pos,
                area_samples,
                is_walkable,
                rng,
            ),
            WanderType::Patrol => self.select_patrol_target(ai_pos),
            WanderType::Explore => select_exploration_target(ai_pos, is_walkable, rng),
        };
        if r.is_some() {
            self.last_target_time = Some(current_turn);
        }
        r
    }

    /// Stores a new target and the path found to it: with a path, the path
    /// (index 0) and the actor's position are recorded; without one, the old
    /// path is dropped.
    pub fn install_wander_path(
        &mut self,
        ai_pos: Position,
        target: Position,
        path: Option<Vec<Position>>,
    )
        ensures
            wander_path_installed(*old(self), *final(self), ai_pos, target, path),
    {
        match path {
            Some(p) => {
                self.current_path = p;
                self.path_index = 0;
                self.current_target = Some(target);
                self.ai_pos_when_path_generated = Some(ai_pos);
            },
            None => {
                self.current_path.clear();
                self.current_target = Some(target);
            },
        }
    }
}

/// Starts wandering toward `target` along `path` (the path found to it, if
/// any). No target: failure. With a path of at least two cells the actor
/// moves toward its second cell (index 1), or fails when it already stands
/// there; a shorter path means the target is reached. Without a path the
/// actor moves straight toward the target, or fails when it stands on it.
pub fn start_wander(
    wander_action: &mut WanderAction,
    ai_actor: &mut TurnActor,
    ai_pos: Position,
    target: Option<Position>,
    path: Option<Vec<Position>>,
) -> (state: ActionState)
    ensures
        wander_started(*old(wander_action), *final(wander_action), *old(ai_actor), *final(ai_actor), ai_pos, target, path, state),
{
    let target = match target {
        Some(t) => t,
        None => {
            return ActionState::Failure;
        },
    };
    let has_path = path.is_some();
    wander_action.install_wander_path(ai_pos, target, path);
    if has_path {
        if wander_action.current_path.len() > 1 {
            let next_pos = wander_action.current_path[1];
            match calculate_direction_to_target(&ai_pos, &next_pos) {
                Some(dir) => {
                    queue_move_delta(ai_actor, dir);
                    wander_action.path_index = 1;
                    ActionState::Executing
                },
                None => ActionState::Failure,
            }
        } else {
            ActionState::Success
        }
    } else {
        match calculate_direction_to_target(&ai_pos, &target) {
            Some(dir) => {
                queue_move_delta(ai_actor, dir);
                ActionState::Executing
            },
            None => ActionState::Failure,
        }
    }
}

/// Goes on wandering: the target is the stored one (the actor's own cell when
/// none). Standing on it: success. Otherwise the next direction comes from
/// following the stored path, or, without a path, straight toward the target;
/// the actor moves that way, or fails when there is none.
pub fn continue_wander<W: Fn(Position) -> bool>(
    wander_action: &mut WanderAction,
    ai_actor: &mut TurnActor,
    ai_pos: Position,
    is_walkable: &W,
) -> (state: ActionState)
    requires
        old(wander_action).path_index < usize::MAX,
        forall|p: Position| #[trigger] is_walkable.requires((p,)),
    ensures
        wander_continued(*old(wander_action), *final(wander_action), *old(ai_actor), *final(ai_actor), ai_pos, *is_walkable, state),
{
    let target_position = match wander_action.current_target {
        Some(t) => t,
        None => ai_pos,
    };
    if target_position == ai_pos {
        return ActionState::Success;
    }
    if wander_action.current_path.len() > 0 {
        let next_move = follow_path(
            &wander_action.current_path,
            &mut wander_action.path_index,
            ai_pos,
            is_walkable,
        );
        assert(follow_outcome(
            old(wander_action).current_path@,
            old(wander_action).path_index as int,
            ai_pos,
            *is_walkable,
            next_move,
            wander_action.path_index as int,
        ));
        match next_move {
            Some(direction) => {
                queue_move_delta(ai_actor, direction);
                ActionState::Executing
            },
            None => ActionState::Failure,
        }
    } else {
        match calculate_direction_to_target(&ai_pos, &target_position) {
            Some(direction) => {
                queue_move_delta(ai_actor, direction);
                ActionState::Executing
            },
            None => ActionState::Failure,
        }
    }
}

/// One run of the wander behaviour for one actor. An actor with actions
/// queued, or whose behaviour finished, is left alone; a cancelled behaviour
/// fails. A new behaviour picks a target, asks `find_path` for a path to it
/// and starts (`start_wander`). A running one first replaces its target and
/// path when `should_regenerate_wander_path` says so, then goes on
/// (`continue_wander`). `area_samples` are the points drawn in the wander
/// area, used for area wandering.
pub fn wander_action_step<W: Fn(Position) -> bool, P: Fn(Position, Position) -> Option<
    Vec<Position>,
>>(
    action_state: ActionState,
    wander_action: &mut WanderAction,
    ai_actor: &mut TurnActor,
    ai_pos: Position,
    current_turn: u64,
    rng: &mut rand::rngs::ThreadRng,
    is_walkable: &W,
    find_path: &P,
    area_samples: &Vec<(i32, i32)>,
) -> (state: ActionState)
    requires
        within(ai_pos, 8),
        samples_within(area_samples@, 2),
        old(wander_action).path_index < usize::MAX,
        forall|p: Position| #[trigger] is_walkable.requires((p,)),
        forall|a: Position, b: Position| #[trigger] find_path.requires((a, b)),
    ensures
        ({
            let (s, step) = advanced(action_state, old(ai_actor).pending().len() > 0);
            if step == ActionStep::Skip {
                state == s && *final(wander_action) == *old(wander_action) && *final(ai_actor)
                    == *old(ai_actor)
            } else {
                &&& state == ActionState::Executing || state == ActionState::Success || state
                    == ActionState::Failure
                &&& state == ActionState::Executing ==> moved_one_step(*old(ai_actor), *final(ai_actor))
                &&& state != ActionState::Executing ==> *final(ai_actor) == *old(ai_actor)
                &&& step == ActionStep::Start ==> exists|w1: WanderAction, r: Option<Position>, p: Option<Vec<Position>>|
                    #![trigger wander_target_chosen(*old(wander_action), w1, ai_pos, *is_walkable, current_turn, area_samples@, r), path_for(*find_path, ai_pos, r, p)]
                    wander_target_chosen(
                        *old(wander_action),
                        w1,
                        ai_pos,
                        *is_walkable,
                        current_turn,
                        area_samples@,
                        r,
                    ) && path_for(*find_path, ai_pos, r, p) && wander_started(
                        w1,
                        *final(wander_action),
                        *old(ai_actor),
                        *final(ai_actor),
                        ai_pos,
                        r,
                        p,
                        state,
                    )
                &&& step == ActionStep::Continue ==> exists|w1: WanderAction|
                    #[trigger] wander_path_refreshed(
                        *old(wander_action),
                        w1,
                        ai_pos,
                        *is_walkable,
                        *find_path,
                        current_turn,
                        area_samples@,
                    ) && wander_continued(
                        w1,
                        *final(wander_action),
                        *old(ai_actor),
                        *final(ai_actor),
                        ai_pos,
                        *is_walkable,
                        state,
                    )
            }
        }),
{
    let has_action = ai_actor.has_action();
    let (state, step) = advance_action_state(action_state, has_action);
    match step {
        ActionStep::Skip => state,
        ActionStep::Start => {
            let target = wander_action.select_wander_target(
                ai_pos,
                is_walkable,
                current_turn,
                rng,
                area_samples,
            );
            let ghost w1 = *wander_action;
            let path = match target {
                Some(t) => find_path(ai_pos, t),
                None => None,
            };
            assert(path_for(*find_path, ai_pos, target, path));
            let r = start_wander(wander_action, ai_actor, ai_pos, target, path);
            r
        },
        ActionStep::Continue => {
            let ghost w0 = *wander_action;
            let regen = wander_action.should_regenerate_wander_path(ai_pos, is_walkable, current_turn);
            if regen {
                let new_target = wander_action.select_wander_target(
                    ai_pos,
                    is_walkable,
                    current_turn,
                    rng,
                    area_samples,
                );
                let ghost wm = *wander_action;
                if let Some(target) = new_target {
                    let path = find_path(ai_pos, target);
                    assert(find_path.ensures((ai_pos, target), path));
                    wander_action.install_wander_path(ai_pos, target, path);
                }
                assert(wander_target_chosen(w0, wm, ai_pos, *is_walkable, current_turn, area_samples@, new_target));
            }
            let ghost w1 = *wander_action;
            assert(wander_regen_answer(w0, ai_pos, *is_walkable, current_turn, regen));
            assert(wander_path_refreshed(w0, w1, ai_pos, *is_walkable, *find_path, current_turn, area_samples@));
            let r = continue_wander(wander_action, ai_actor, ai_pos, is_walkable);
            r
        },
    }
}

/// The state an action system moves to and whether it acts this time, as
/// `advance_action_state` decides it.
pub open spec fn advanced(state: ActionState, has_queued_action: bool) -> (ActionState, ActionStep) {
    if has_queued_action {
        (state, ActionStep::Skip)
    } else {
        match state {
            ActionState::Success => (ActionState::Success, ActionStep::Skip),
            ActionState::Failure => (ActionState::Failure, ActionStep::Skip),
            ActionState::Cancelled => (ActionState::Failure, ActionStep::Skip),
            ActionState::Init => (ActionState::Executing, ActionStep::Start),
            ActionState::Requested => (ActionState::Executing, ActionStep::Start),
            ActionState::Executing => (ActionState::Executing, ActionStep::Continue),
        }
    }
}

// ---------------------------------------------------------------------------
// Chasing
// ---------------------------------------------------------------------------

/// `c1` is `c0` after recording a chase toward `target_pos` with `path`:
/// `target_pos` becomes the last seen point; with a path, it is stored
/// (index 0) with the target and the actor's position and the chase has a
/// path; without one, the old path is dropped and the chase has none.
pub open spec fn chase_path_recorded(
    c0: ChasePlayerAction,
    c1: ChasePlayerAction,
    ai_pos: Position,
    target_pos: Position,
    path: Option<Vec<Position>>,
) -> bool {
    &&& c1.last_seen_pt == Some(target_pos)
    &&& c1.generated_path == path is Some
    &&& match path {
        Some(p) => c1.current_path@ == p@ && c1.path_index == 0 && c1.target_when_path_generated
            == Some(target_pos) && c1.ai_pos_when_path_generated == Some(ai_pos),
        None => c1.current_path@.len() == 0 && c1.path_index == c0.path_index
            && c1.target_when_path_generated == c0.target_when_path_generated
            && c1.ai_pos_when_path_generated == c0.ai_pos_when_path_generated,
    }
}

/// `r` is the chase target chosen from `c0` (which becomes `c1`): a visible
/// player where it stands, becoming the last seen point, with a new path
/// asked of `find_path` for (actor, player) unless the stored one was made
/// for that cell; otherwise the last seen point, or `None` when there is
/// none or the actor stands on it.
pub open spec fn chase_target_chosen<P: Fn(Position, Position) -> Option<Vec<Position>>>(
    c0: ChasePlayerAction,
    c1: ChasePlayerAction,
    ai_pos: Position,
    player_pos: Position,
    player_visible: bool,
    find_path: P,
    r: Option<Position>,
) -> bool {
    if !player_visible {
        c1 == c0 && r == (match c0.last_seen_pt {
            Some(l) => if l == ai_pos {
                None
            } else {
                Some(l)
            },
            None => None,
        })
    } else {
        &&& r == Some(player_pos)
        &&& if c0.generated_path && c0.target_when_path_generated == Some(player_pos) {
            c1 == ChasePlayerAction { last_seen_pt: Some(player_pos), ..c0 }
        } else {
            exists|p: Option<Vec<Position>>|
                #[trigger] find_path.ensures((ai_pos, player_pos), p) && chase_path_recorded(
                    c0,
                    c1,
                    ai_pos,
                    player_pos,
                    p,
                )
        }
    }
}

/// `r` is the next chase direction from `c0` (which becomes `c1`): along the
/// stored path when one was made and is not empty, else straight toward
/// `target_position`. Only the path index may change.
pub open spec fn chase_direction_chosen<W: Fn(Position) -> bool>(
    c0: ChasePlayerAction,
    c1: ChasePlayerAction,
    ai_pos: Position,
    target_position: Position,
    is_walkable: W,
    r: Option<Direction>,
) -> bool {
    &&& c1.current_path@ == c0.current_path@
    &&& c1.generated_path == c0.generated_path
    &&& c1.last_seen_pt == c0.last_seen_pt
    &&& c1.target_when_path_generated == c0.target_when_path_generated
    &&& c1.ai_pos_when_path_generated == c0.ai_pos_when_path_generated
    &&& if c0.generated_path && c0.current_path@.len() > 0 {
        follow_outcome(c0.current_path@, c0.path_index as int, ai_pos, is_walkable, r, c1.path_index as int)
    } else {
        r == toward(ai_pos, target_position) && c1.path_index == c0.path_index
    }
}

/// What `start_chase` does with `path`: the chase path is recorded; with a
/// path of at least two cells the actor (`a0`, becoming `a1`) moves toward
/// its second cell (index 1), or fails when it stands there; a shorter path
/// means the player is reached. Without a path the actor moves straight
/// toward the player, or fails when on it.
pub open spec fn chase_started(
    c0: ChasePlayerAction,
    c1: ChasePlayerAction,
    a0: TurnActor,
    a1: TurnActor,
    ai_pos: Position,
    player_pos: Position,
    path: Option<Vec<Position>>,
    state: ActionState,
) -> bool {
    &&& c1.last_seen_pt == Some(player_pos)
    &&& c1.generated_path == path is Some
    &&& match path {
        Some(p) => {
            &&& c1.current_path@ == p@
            &&& c1.target_when_path_generated == Some(player_pos)
            &&& c1.ai_pos_when_path_generated == Some(ai_pos)
            &&& if p@.len() > 1 {
                match toward(ai_pos, p@[1]) {
                    Some(d) => state == ActionState::Executing && c1.path_index == 1 && queued_after(
                        a0,
                        a1,
                        ActionType::MoveDelta(d),
                    ),
                    None => state == ActionState::Failure && c1.path_index == 0 && a1 == a0,
                }
            } else {
                state == ActionState::Success && c1.path_index == 0 && a1 == a0
            }
        },
        None => {
            &&& c1.current_path@.len() == 0
            &&& c1.path_index == c0.path_index
            &&& c1.target_when_path_generated == c0.target_when_path_generated
            &&& c1.ai_pos_when_path_generated == c0.ai_pos_when_path_generated
            &&& match toward(ai_pos, player_pos) {
                Some(d) => state == ActionState::Executing && queued_after(
                    a0,
                    a1,
                    ActionType::MoveDelta(d),
                ),
                None => state == ActionState::Failure && a1 == a0,
            }
        },
    }
}

/// Before a running chase goes on, its path is remade (`find_path` asked for
/// (actor, player)) when `should_regenerate_chase_path` says so; `c0`
/// becomes `c1`.
pub open spec fn chase_path_refreshed<W: Fn(Position) -> bool, P: Fn(Position, Position) -> Option<Vec<Position>>>(
    c0: ChasePlayerAction,
    c1: ChasePlayerAction,
    ai_pos: Position,
    player_pos: Position,
    is_walkable: W,
    find_path: P,
) -> bool {
    exists|regen: bool|
        #[trigger] chase_regen_answer(c0, ai_pos, player_pos, is_walkable, regen) && if regen {
            exists|p: Option<Vec<Position>>|
                #[trigger] find_path.ensures((ai_pos, player_pos), p) && chase_path_recorded(
                    c0,
                    c1,
                    ai_pos,
                    player_pos,
                    p,
                )
        } else {
            c1 == c0
        }
}

/// What a running chase does (`c0` becoming `c3`, the actor `a0` becoming
/// `a1`): the path is refreshed, the target chosen (none: failure), then the
/// next direction; the actor moves that way (`Executing`), or fails when
/// there is none.
pub open spec fn chase_continued<W: Fn(Position) -> bool, P: Fn(Position, Position) -> Option<Vec<Position>>>(
    c0: ChasePlayerAction,
    c3: ChasePlayerAction,
    a0: TurnActor,
    a1: TurnActor,
    ai_pos: Position,
    player_pos: Position,
    player_visible: bool,
    is_walkable: W,
    find_path: P,
    state: ActionState,
) -> bool {
    exists|c1: ChasePlayerAction, c2: ChasePlayerAction, target: Option<Position>|
        #![trigger chase_path_refreshed(c0, c1, ai_pos, player_pos, is_walkable, find_path), chase_target_chosen(c1, c2, ai_pos, player_pos, player_visible, find_path, target)]
        chase_path_refreshed(c0, c1, ai_pos, player_pos, is_walkable, find_path)
            && chase_target_chosen(c1, c2, ai_pos, player_pos, player_visible, find_path, target)
            && match target {
            None => state == ActionState::Failure && c3 == c2 && a1 == a0,
            Some(t) => exists|d: Option<Direction>|
                #[trigger] chase_direction_chosen(c2, c3, ai_pos, t, is_walkable, d) && match d {
                    Some(dd) => state == ActionState::Executing && queued_after(
                        a0,
                        a1,
                        ActionType::MoveDelta(dd),
                    ),
                    None => state == ActionState::Failure && a1 == a0,
                },
        }
}

impl ChasePlayerAction {
    /// Records a chase toward `target_pos` with the path found to it: with a
    /// path, it is stored (index 0) with the target and the actor's position
    /// and the chase counts as having a path; without one, the old path is
    /// dropped and the chase has none. Either way `target_pos` becomes the last
    /// seen point. Returns whether there was a path.
    pub fn generate_chase_path(
        &mut self,
        ai_pos: Position,
        target_pos: Position,
        path: Option<Vec<Position>>,
    ) -> (found: bool)
        ensures
            found == path is Some,
            chase_path_recorded(*old(self), *final(self), ai_pos, target_pos, path),
    {
        match path {
            Some(p) => {
                self.current_path = p;
                self.path_index = 0;
                self.target_when_path_generated = Some(target_pos);
                self.ai_pos_when_path_generated = Some(ai_pos);
                self.generated_path = true;
                self.last_seen_pt = Some(target_pos);
                true
            },
            None => {
                self.generated_path = false;
                self.current_path.clear();
                self.last_seen_pt = Some(target_pos);
                false
            },
        }
    }

    /// Where to chase: a visible player is chased where it stands (it
    /// becomes the last seen point, and a path to it is made unless the
    /// stored one was made for that very cell); otherwise the last seen
    /// point, or `None` when there is none or the actor already stands on it.
    pub fn determine_chase_target<P: Fn(Position, Position) -> Option<Vec<Position>>>(
        &mut self,
        ai_pos: Position,
        player_pos: Position,
        player_visible: bool,
        find_path: &P,
    ) -> (r: Option<Position>)
        requires
            forall|a: Position, b: Position| #[trigger] find_path.requires((a, b)),
        ensures
            chase_target_chosen(*old(self), *final(self), ai_pos, player_pos, player_visible, *find_path, r),
    {
        if player_visible {
            self.last_seen_pt = Some(player_pos);
            let same_target = match self.target_when_path_generated {
                Some(t) => t == player_pos,
                None => false,
            };
            if !self.generated_path || !same_target {
                let path = find_path(ai_pos, player_pos);
                self.generate_chase_path(ai_pos, player_pos, path);
                assert(chase_path_recorded(*old(self), *self, ai_pos, player_pos, path));
            }
            Some(player_pos)
        } else {
            match self.last_seen_pt {
                Some(last_seen) => if last_seen == ai_pos {
                    None
                } else {
                    Some(last_seen)
                },
                None => None,
            }
        }
    }

    /// Next chase direction: along the stored path when one was made and is
    /// not empty, else straight toward `target_position`.
    pub fn get_next_chase_direction<W: Fn(Position) -> bool>(
        &mut self,
        ai_pos: Position,
        target_position: Position,
        is_walkable: &W,
    ) -> (r: Option<Direction>)
        requires
            old(self).path_index < usize::MAX,
            forall|p: Position| #[trigger] is_walkable.requires((p,)),
        ensures
            chase_direction_chosen(*old(self), *final(self), ai_pos, target_position, *is_walkable, r),
    {
        if self.generated_path && self.current_path.len() > 0 {
            follow_path(&self.current_path, &mut self.path_index, ai_pos, is_walkable)
        } else {
            calculate_direction_to_target(&ai_pos, &target_position)
        }
    }
}

/// Starts chasing the player with `path`, the path found to it (if any):
/// the chase path is recorded (`generate_chase_path`). With a path of at
/// least two cells the actor moves toward its second cell (index 1), or fails
/// when it stands there; a shorter path means the player is reached. Without
/// a path the actor moves straight toward the player, or fails when on it.
pub fn start_chase(
    chase_action: &mut ChasePlayerAction,
    ai_actor: &mut TurnActor,
    ai_pos: Position,
    player_pos: Position,
    path: Option<Vec<Position>>,
) -> (state: ActionState)
    ensures
        chase_started(*old(chase_action), *final(chase_action), *old(ai_actor), *final(ai_actor), ai_pos, player_pos, path, state),
{
    if chase_action.generate_chase_path(ai_pos, player_pos, path) {
        if chase_action.current_path.len() > 1 {
            let next_pos = chase_action.current_path[1];
            match calculate_direction_to_target(&ai_pos, &next_pos) {
                Some(dir) => {
                    queue_move_delta(ai_actor, dir);
                    chase_action.path_index = 1;
                    ActionState::Executing
                },
                None => ActionState::Failure,
            }
        } else {
            ActionState::Success
        }
    } else {
        match calculate_direction_to_target(&ai_pos, &player_pos) {
            Some(dir) => {
                queue_move_delta(ai_actor, dir);
                ActionState::Executing
            },
            None => ActionState::Failure,
        }
    }
}

/// One run of the chase behaviour for one actor. An actor with actions
/// queued, or whose behaviour finished, is left alone; a cancelled behaviour
/// fails. A new chase asks `find_path` for a path to the player and starts
/// (`start_chase`). A running one first remakes its path when
/// `should_regenerate_chase_path` says so, then picks its target
/// (`determine_chase_target`; none: failure) and its next direction
/// (`get_next_chase_direction`; none: failure) and moves that way.
pub fn chase_action_step<W: Fn(Position) -> bool, P: Fn(Position, Position) -> Option<
    Vec<Position>,
>>(
    action_state: ActionState,
    chase_action: &mut ChasePlayerAction,
    ai_actor: &mut TurnActor,
    ai_pos: Position,
    player_pos: Position,
    player_visible: bool,
    is_walkable: &W,
    find_path: &P,
) -> (state: ActionState)
    requires
        old(chase_action).path_index < usize::MAX,
        forall|p: Position| #[trigger] is_walkable.requires((p,)),
        forall|a: Position, b: Position| #[trigger] find_path.requires((a, b)),
    ensures
        ({
            let (s, step) = advanced(action_state, old(ai_actor).pending().len() > 0);
            if step == ActionStep::Skip {
                state == s && *final(chase_action) == *old(chase_action) && *final(ai_actor)
                    == *old(ai_actor)
            } else {
                &&& state == ActionState::Executing || state == ActionState::Success || state
                    == ActionState::Failure
                &&& state == ActionState::Executing ==> moved_one_step(*old(ai_actor), *final(ai_actor))
                &&& state != ActionState::Executing ==> *final(ai_actor) == *old(ai_actor)
                &&& step == ActionStep::Start ==> exists|p: Option<Vec<Position>>|
                    #[trigger] find_path.ensures((ai_pos, player_pos), p) && chase_started(
                        *old(chase_action),
                        *final(chase_action),
                        *old(ai_actor),
                        *final(ai_actor),
                        ai_pos,
                        player_pos,
                        p,
                        state,
                    )
                &&& step == ActionStep::Continue ==> chase_continued(
                    *old(chase_action),
                    *final(chase_action),
                    *old(ai_actor),
                    *final(ai_actor),
                    ai_pos,
                    player_pos,
                    player_visible,
                    *is_walkable,
                    *find_path,
                    state,
                )
            }
        }),
{
    let has_action = ai_actor.has_action();
    let (state, step) = advance_action_state(action_state, has_action);
    match step {
        ActionStep::Skip => state,
        ActionStep::Start => {
            let path = find_path(ai_pos, player_pos);
            start_chase(chase_action, ai_actor, ai_pos, player_pos, path)
        },
        ActionStep::Continue => {
            let ghost c0 = *chase_action;
            let regen = chase_action.should_regenerate_chase_path(ai_pos, player_pos, is_walkable);
            if regen {
                let path = find_path(ai_pos, player_pos);
                chase_action.generate_chase_path(ai_pos, player_pos, path);
                assert(find_path.ensures((ai_pos, player_pos), path));
            }
            let ghost c1 = *chase_action;
            assert(chase_regen_answer(c0, ai_pos, player_pos, *is_walkable, regen));
            assert(chase_path_refreshed(c0, c1, ai_pos, player_pos, *is_walkable, *find_path));
            let target = chase_action.determine_chase_target(
                ai_pos,
                player_pos,
                player_visible,
                find_path,
            );
            let ghost c2 = *chase_action;
            assert(chase_target_chosen(c1, c2, ai_pos, player_pos, player_visible, *find_path, target));
            let target_position = match target {
                Some(t) => t,
                None => {
                    assert(chase_continued(c0, *chase_action, *old(ai_actor), *ai_actor, ai_pos, player_pos, player_visible, *is_walkable, *find_path, ActionState::Failure));
                    return ActionState::Failure;
                },
            };
            let d = chase_action.get_next_chase_direction(ai_pos, target_position, is_walkable);
            assert(chase_direction_chosen(c2, *chase_action, ai_pos, target_position, *is_walkable, d));
            match d {
                Some(direction) => {
                    queue_move_delta(ai_actor, direction);
                    assert(chase_continued(c0, *chase_action, *old(ai_actor), *ai_actor, ai_pos, player_pos, player_visible, *is_walkable, *find_path, ActionState::Executing));
                    ActionState::Executing
                },
                None => {
                    assert(chase_continued(c0, *chase_action, *old(ai_actor), *ai_actor, ai_pos, player_pos, player_visible, *is_walkable, *find_path, ActionState::Failure));
                    ActionState::Failure
                },
            }
        },
    }
}

/// State of the simple chase behaviour: whether a path step toward the
/// last seen point was taken, and where the player was last seen.
#[derive(Clone, Copy, Debug, PartialEq, Eq, Structural)]
pub struct ChaseActor {
    pub generated_path: bool,
    pub last_seen_pt: Option<Position>,
}

impl ChaseActor {
    /// No path step taken, player never seen.
    pub fn new() -> (c: ChaseActor)
        ensures
            !c.generated_path,
            c.last_seen_pt is None,
    {
        ChaseActor { generated_path: false, last_seen_pt: None }
    }
}

/// What the simple chase does once running (state `Executing`), from chase
/// state `c0` and preferred action `p0`: next to the player, success with
/// nothing else changed; with the player in sight, the player is the last
/// seen point and the target; otherwise it goes to the last seen point (none:
/// wait; standing on it: failure), taking, when no path step was taken yet,
/// the first cell of the path `find_path` gives for (actor, last seen point)
/// as both target and new last seen point (an empty path: the last seen point
/// itself; no path: failure). The target becomes the preferred move.
pub open spec fn chase_actor_running<P: Fn(Position, Position) -> Option<Vec<Position>>>(
    c0: ChaseActor,
    p0: Option<ActionType>,
    ai_pos: Position,
    player_pos: Position,
    adjacent: bool,
    in_sight: bool,
    find_path: P,
    state: ActionState,
    c1: ChaseActor,
    p1: Option<ActionType>,
) -> bool {
    if adjacent {
        state == ActionState::Success && c1 == c0 && p1 == p0
    } else if in_sight {
        state == ActionState::Executing && c1 == (ChaseActor {
            generated_path: false,
            last_seen_pt: Some(player_pos),
        }) && p1 == Some(ActionType::Move(player_pos))
    } else {
        match c0.last_seen_pt {
            None => state == ActionState::Executing && c1 == c0 && p1 == Some(ActionType::Wait),
            Some(l) => if l == ai_pos {
                state == ActionState::Failure && c1 == c0 && p1 == p0
            } else if c0.generated_path {
                state == ActionState::Executing && c1 == c0 && p1 == Some(ActionType::Move(l))
            } else {
                exists|path: Option<Vec<Position>>|
                    #[trigger] find_path.ensures((ai_pos, l), path) && match path {
                        None => state == ActionState::Failure && c1 == c0 && p1 == p0,
                        Some(v) => if v@.len() > 0 {
                            state == ActionState::Executing && c1 == (ChaseActor {
                                generated_path: true,
                                last_seen_pt: Some(v@[0]),
                            }) && p1 == Some(ActionType::Move(v@[0]))
                        } else {
                            state == ActionState::Executing && c1 == c0 && p1 == Some(
                                ActionType::Move(l),
                            )
                        },
                    }
            },
        }
    }
}

/// One run of the simple chase for one actor, which steers by its preferred
/// action. With a preferred action set, nothing happens. A finished chase
/// drops the preferred action; a cancelled one fails and drops it. A new
/// chase starts running (no path step, player seen where it stands,
/// preferred move onto the player) and then acts at once; a running one acts
/// (`chase_actor_running`). `adjacent` and `in_sight` say whether the player
/// is within attack distance and within the actor's sight.
pub fn chase_actor_step<P: Fn(Position, Position) -> Option<Vec<Position>>>(
    action_state: ActionState,
    chase: &mut ChaseActor,
    preferred_action: &mut Option<ActionType>,
    ai_pos: Position,
    player_pos: Position,
    adjacent: bool,
    in_sight: bool,
    find_path: &P,
) -> (state: ActionState)
    requires
        forall|a: Position, b: Position| #[trigger] find_path.requires((a, b)),
    ensures
        *old(preferred_action) is Some ==> state == action_state && *final(chase) == *old(chase)
            && *final(preferred_action) == *old(preferred_action),
        *old(preferred_action) is None ==> match action_state {
            ActionState::Success => state == ActionState::Success && *final(chase) == *old(chase)
                && *final(preferred_action) is None,
            ActionState::Failure => state == ActionState::Failure && *final(chase) == *old(chase)
                && *final(preferred_action) is None,
            ActionState::Cancelled => state == ActionState::Failure && *final(chase) == *old(chase)
                && *final(preferred_action) is None,
            ActionState::Executing => chase_actor_running(
                *old(chase),
                *old(preferred_action),
                ai_pos,
                player_pos,
                adjacent,
                in_sight,
                *find_path,
                state,
                *final(chase),
                *final(preferred_action),
            ),
            _ => chase_actor_running(
                ChaseActor { generated_path: false, last_seen_pt: Some(player_pos) },
                Some(ActionType::Move(player_pos)),
                ai_pos,
                player_pos,
                adjacent,
                in_sight,
                *find_path,
                state,
                *final(chase),
                *final(preferred_action),
            ),
        },
{
    if preferred_action.is_some() {
        return action_state;
    }
    match action_state {
        ActionState::Success | ActionState::Failure => {
            *preferred_action = None;
            return action_state;
        },
        ActionState::Cancelled => {
            *preferred_action = None;
            return ActionState::Failure;
        },
        ActionState::Init | ActionState::Requested => {
            chase.generated_path = false;
            chase.last_seen_pt = Some(player_pos);
            *preferred_action = Some(ActionType::Move(player_pos));
        },
        ActionState::Executing => {},
    }
    if adjacent {
        return ActionState::Success;
    }
    let target_position = if in_sight {
        chase.last_seen_pt = Some(player_pos);
        chase.generated_path = false;
        player_pos
    } else {
        let last_seen = match chase.last_seen_pt {
            Some(l) => l,
            None => {
                *preferred_action = Some(ActionType::Wait);
                return ActionState::Executing;
            },
        };
        if last_seen == ai_pos {
            return ActionState::Failure;
        }
        if !chase.generated_path {
            let path = find_path(ai_pos, last_seen);
            assert(find_path.ensures((ai_pos, last_seen), path));
            match path {
                Some(p) => {
                    if p.len() > 0 {
                        let next_step = p[0];
                        chase.generated_path = true;
                        chase.last_seen_pt = Some(next_step);
                        next_step
                    } else {
                        last_seen
                    }
                },
                None => {
                    return ActionState::Failure;
                },
            }
        } else {
            last_seen
        }
    };
    *preferred_action = Some(ActionType::Move(target_position));
    ActionState::Executing
}

// ---------------------------------------------------------------------------
// Fleeing
// ---------------------------------------------------------------------------

/// A fallback escape cell: a walkable cell near the actor that is farther from
/// the threat than the actor and within distance 3 of it.
pub open spec fn fallback_escape(ai_pos: Position, threat_pos: Position, c: Position) -> bool {
    &&& dist2(c, threat_pos) > dist2(ai_pos, threat_pos)
    &&& dist2(c, ai_pos) <= 9
}

/// The cell at offset (dx, dy) from `p`.
pub open spec fn offset_cell(p: Position, dx: int, dy: int) -> Position {
    Position { x: (p.x + dx) as i32, y: (p.y + dy) as i32 }
}

/// Step (radius, dx, dy) of the fallback search declined its cell: the
/// offset is (0, 0), which is skipped, or the test on the cell said "not
/// walkable", or the cell is no fallback escape.
pub open spec fn fallback_step_declined<W: Fn(Position) -> bool>(
    w: W,
    ai_pos: Position,
    threat_pos: Position,
    radius: int,
    dx: int,
    dy: int,
) -> bool {
    let c = offset_cell(ai_pos, dx, dy);
    (dx == 0 && dy == 0) || declined(w, c, fallback_escape(ai_pos, threat_pos, c))
}

/// Every step of the fallback search before (radius, dx, dy) declined its
/// cell. The steps go by radius 1 to 5, then dx, then dy, each offset from
/// `-radius` to `radius`.
pub open spec fn fallback_declined_before<W: Fn(Position) -> bool>(
    w: W,
    ai_pos: Position,
    threat_pos: Position,
    radius: int,
    dx: int,
    dy: int,
) -> bool {
    forall|r2: int, dx2: int, dy2: int|
        1 <= r2 <= 5 && -r2 <= dx2 <= r2 && -r2 <= dy2 <= r2 && (r2 < radius || (r2 == radius && (
        dx2 < dx || (dx2 == dx && dy2 < dy)))) ==> #[trigger] fallback_step_declined(
            w,
            ai_pos,
            threat_pos,
            r2,
            dx2,
            dy2,
        )
}

/// The fallback search found `r`: at some step (radius, dx, dy) the cell at
/// that offset is walkable and a fallback escape, and every earlier step
/// declined its cell.
pub open spec fn fallback_found<W: Fn(Position) -> bool>(
    w: W,
    ai_pos: Position,
    threat_pos: Position,
    r: Option<Position>,
) -> bool {
    exists|radius: int, dx: int, dy: int|
        {
            &&& 1 <= radius <= 5
            &&& -radius <= dx <= radius
            &&& -radius <= dy <= radius
            &&& !(dx == 0 && dy == 0)
            &&& r == Some(offset_cell(ai_pos, dx, dy))
            &&& w.ensures((offset_cell(ai_pos, dx, dy),), true)
            &&& fallback_escape(ai_pos, threat_pos, offset_cell(ai_pos, dx, dy))
            &&& #[trigger] fallback_declined_before(w, ai_pos, threat_pos, radius, dx, dy)
        }
}

/// `r` is the escape destination found from `escape_points`: the first
/// accepted probe around the points, else the first fallback cell, else
/// `None` when every probe and every fallback cell was declined. A found cell
/// is walkable and lies near a point or is a fallback escape near the actor.
pub open spec fn escape_destination<W: Fn(Position) -> bool>(
    w: W,
    ai_pos: Position,
    threat_pos: Position,
    escape_points: Seq<(i32, i32)>,
    r: Option<Position>,
) -> bool {
    &&& r matches Some(t) ==> w.ensures((t,), true) && (near_sample(escape_points, t) || (t
        != ai_pos && near(ai_pos, t, 5) && fallback_escape(ai_pos, threat_pos, t)))
    &&& probe_search_found(w, escape_points, None, r) || (probes_declined_before(
        w,
        escape_points,
        None,
        escape_points.len() as int,
        0,
    ) && (fallback_found(w, ai_pos, threat_pos, r) || (r is None && fallback_declined_before(
        w,
        ai_pos,
        threat_pos,
        6,
        0,
        0,
    ))))
}

/// Finds where to flee. `escape_points` are the points straight away from the
/// threat at growing distances (one per try): the first walkable one is
/// taken, or else the first walkable cell within 2 of it. When all fail, the
/// cells in growing squares (radius 1 to 5) around the actor are searched for
/// a walkable one farther from the threat and within distance 3.
pub fn find_escape_destination<W: Fn(Position) -> bool>(
    ai_pos: Position,
    threat_pos: Position,
    escape_points: &Vec<(i32, i32)>,
    is_walkable: &W,
) -> (r: Option<Position>)
    requires
        within(ai_pos, 5),
        samples_within(escape_points@, 2),
        forall|p: Position| #[trigger] is_walkable.requires((p,)),
    ensures
        escape_destination(*is_walkable, ai_pos, threat_pos, escape_points@, r),
{
    let ghost w = *is_walkable;
    let ghost avoid: Option<Position> = None;
    let n = escape_points.len();
    let mut i: usize = 0;
    while i < n
        invariant
            n == escape_points@.len(),
            i <= n,
            samples_within(escape_points@, 2),
            forall|p: Position| #[trigger] is_walkable.requires((p,)),
            w == *is_walkable,
            avoid == None::<Position>,
            probes_declined_before(w, escape_points@, avoid, i as int, 0),
        decreases n - i,
    {
        let (escape_x, escape_y) = escape_points[i];
        assert(within(Position { x: escape_points@[i as int].0, y: escape_points@[i as int].1 }, 2));
        let escape_pos = Position::new(escape_x, escape_y);
        assert(near(Position { x: escape_points@[i as int].0, y: escape_points@[i as int].1 }, escape_pos, 2));
        let ok = is_walkable(escape_pos);
        if ok {
            assert(first_probe_hit(*is_walkable, escape_points@, None, i as int, 0, escape_pos));
            return Some(escape_pos);
        }
        assert(probe_declined(w, escape_points@, avoid, i as int, 0));
        proof {
            lemma_probes_declined_step(w, escape_points@, avoid, i as int, 0);
        }
        let mut offset_x: i32 = -2;
        while offset_x <= 2
            invariant
                -2 <= offset_x <= 3,
                within(escape_pos, 2),
                escape_x == escape_pos.x,
                escape_y == escape_pos.y,
                0 <= i < escape_points@.len(),
                escape_pos == (Position { x: escape_points@[i as int].0, y: escape_points@[i as int].1 }),
                forall|p: Position| #[trigger] is_walkable.requires((p,)),
                w == *is_walkable,
                avoid == None::<Position>,
                probes_declined_before(w, escape_points@, avoid, i as int, 1 + 5 * (offset_x + 2)),
            decreases 3 - offset_x,
        {
            let mut offset_y: i32 = -2;
            while offset_y <= 2
                invariant
                    -2 <= offset_x <= 2,
                    -2 <= offset_y <= 3,
                    within(escape_pos, 2),
                    escape_x == escape_pos.x,
                    escape_y == escape_pos.y,
                    0 <= i < escape_points@.len(),
                    escape_pos == (Position { x: escape_points@[i as int].0, y: escape_points@[i as int].1 }),
                    forall|p: Position| #[trigger] is_walkable.requires((p,)),
                    w == *is_walkable,
                    avoid == None::<Position>,
                    probes_declined_before(
                        w,
                        escape_points@,
                        avoid,
                        i as int,
                        1 + 5 * (offset_x + 2) + (offset_y + 2),
                    ),
                decreases 3 - offset_y,
            {
                let variant_pos = Position::new(escape_x + offset_x, escape_y + offset_y);
                let ghost k = 1 + 5 * (offset_x + 2) + (offset_y + 2);
                proof {
                    lemma_probe_offset(escape_points@[i as int], offset_x as int, offset_y as int);
                }
                assert(probe_around(escape_points@[i as int], k) == variant_pos);
                let ok = is_walkable(variant_pos);
                if ok {
                    assert(near(escape_pos, variant_pos, 2));
                    assert(first_probe_hit(*is_walkable, escape_points@, None, i as int, k, variant_pos));
                    return Some(variant_pos);
                }
                assert(probe_declined(w, escape_points@, avoid, i as int, k));
                proof {
                    lemma_probes_declined_step(w, escape_points@, avoid, i as int, k);
                }
                offset_y = offset_y + 1;
            }
            offset_x = offset_x + 1;
        }
        i = i + 1;
    }
    let threat_distance = ai_pos.distance_squared(&threat_pos);
    let mut radius: i32 = 1;
    while radius <= 5
        invariant
            1 <= radius <= 6,
            within(ai_pos, 5),
            threat_distance == dist2(ai_pos, threat_pos),
            forall|p: Position| #[trigger] is_walkable.requires((p,)),
            w == *is_walkable,
            avoid == None::<Position>,
            probes_declined_before(w, escape_points@, avoid, escape_points@.len() as int, 0),
            fallback_declined_before(w, ai_pos, threat_pos, radius as int, -radius, -radius),
        decreases 6 - radius,
    {
        let mut dx: i32 = -radius;
        while dx <= radius
            invariant
                1 <= radius <= 5,
                -radius <= dx <= radius + 1,
                within(ai_pos, 5),
                threat_distance == dist2(ai_pos, threat_pos),
                forall|p: Position| #[trigger] is_walkable.requires((p,)),
                w == *is_walkable,
                avoid == None::<Position>,
                probes_declined_before(w, escape_points@, avoid, escape_points@.len() as int, 0),
                fallback_declined_before(w, ai_pos, threat_pos, radius as int, dx as int, -radius),
            decreases radius + 1 - dx,
        {
            let mut dy: i32 = -radius;
            while dy <= radius
                invariant
                    1 <= radius <= 5,
                    -radius <= dx <= radius,
                    -radius <= dy <= radius + 1,
                    within(ai_pos, 5),
                    threat_distance == dist2(ai_pos, threat_pos),
                    forall|p: Position| #[trigger] is_walkable.requires((p,)),
                    w == *is_walkable,
                    avoid == None::<Position>,
                    probes_declined_before(w, escape_points@, avoid, escape_points@.len() as int, 0),
                    fallback_declined_before(w, ai_pos, threat_pos, radius as int, dx as int, dy as int),
                decreases radius + 1 - dy,
            {
                if !(dx == 0 && dy == 0) {
                    let candidate_pos = Position::new(ai_pos.x + dx, ai_pos.y + dy);
                    assert(candidate_pos == offset_cell(ai_pos, dx as int, dy as int));
                    let ok = is_walkable(candidate_pos);
                    if ok {
                        let distance_from_threat = candidate_pos.distance_squared(&threat_pos);
                        let distance_from_ai = candidate_pos.distance_squared(&ai_pos);
                        if distance_from_threat > threat_distance && distance_from_ai <= 9 {
                            assert(fallback_escape(ai_pos, threat_pos, candidate_pos));
                            assert(fallback_declined_before(*is_walkable, ai_pos, threat_pos, radius as int, dx as int, dy as int));
                            assert(fallback_found(*is_walkable, ai_pos, threat_pos, Some(candidate_pos)));
                            return Some(candidate_pos);
                        }
                    }
                    assert(declined(w, candidate_pos, fallback_escape(ai_pos, threat_pos, candidate_pos)));
                }
                assert(fallback_step_declined(w, ai_pos, threat_pos, radius as int, dx as int, dy as int));
                assert(fallback_declined_before(w, ai_pos, threat_pos, radius as int, dx as int, dy + 1));
                dy = dy + 1;
            }
            assert(fallback_declined_before(w, ai_pos, threat_pos, radius as int, dx + 1, -radius)) by {
                assert forall|r2: int, dx2: int, dy2: int|
                    1 <= r2 <= 5 && -r2 <= dx2 <= r2 && -r2 <= dy2 <= r2 && (r2 < radius || (r2
                        == radius && (dx2 < dx + 1 || (dx2 == dx + 1 && dy2 < -radius)))) implies #[trigger] fallback_step_declined(
                    w,
                    ai_pos,
                    threat_pos,
                    r2,
                    dx2,
                    dy2,
                ) by {
                    if r2 == radius && dx2 == dx {
                        assert(dy2 < radius + 1);
                    }
                }
            }
            dx = dx + 1;
        }
        assert(fallback_declined_before(w, ai_pos, threat_pos, radius + 1, -(radius + 1), -(radius + 1)));
        radius = radius + 1;
    }
    assert(fallback_declined_before(*is_walkable, ai_pos, threat_pos, 6, 0, 0));
    None
}

/// `f1` is `f0` after recording the path found to `escape_target`: with a
/// path, it is stored (index 0) with the target and the threat's and actor's
/// positions; without one only the old path is dropped.
pub open spec fn escape_path_installed(
    f0: FleeFromPlayerAction,
    f1: FleeFromPlayerAction,
    ai_pos: Position,
    threat_pos: Position,
    escape_target: Position,
    path: Option<Vec<Position>>,
) -> bool {
    match path {
        Some(p) => f1.escape_path@ == p@ && f1.path_index == 0 && f1.escape_target == Some(
            escape_target,
        ) && f1.threat_pos_when_path_generated == Some(threat_pos) && f1.ai_pos_when_path_generated
            == Some(ai_pos),
        None => f1.escape_path@.len() == 0 && f1.path_index == f0.path_index && f1.escape_target
            == f0.escape_target && f1.threat_pos_when_path_generated
            == f0.threat_pos_when_path_generated && f1.ai_pos_when_path_generated
            == f0.ai_pos_when_path_generated,
    }
}

/// What `start_flee` does (`f0` becoming `f1`, the actor `a0` becoming
/// `a1`): no destination, failure and nothing changes; with a path, it is
/// recorded and the actor moves toward its second cell (index 1), fails when
/// it stands there, or succeeds when the path is shorter; without a path the
/// actor moves straight away from the threat.
pub open spec fn flee_started(
    f0: FleeFromPlayerAction,
    f1: FleeFromPlayerAction,
    a0: TurnActor,
    a1: TurnActor,
    ai_pos: Position,
    threat_pos: Position,
    escape_target: Option<Position>,
    path: Option<Vec<Position>>,
    state: ActionState,
) -> bool {
    match escape_target {
        None => state == ActionState::Failure && f1 == f0 && a1 == a0,
        Some(t) => match path {
            Some(p) => {
                &&& f1.escape_path@ == p@
                &&& f1.escape_target == Some(t)
                &&& f1.threat_pos_when_path_generated == Some(threat_pos)
                &&& f1.ai_pos_when_path_generated == Some(ai_pos)
                &&& if p@.len() > 1 {
                    match toward(ai_pos, p@[1]) {
                        Some(d) => state == ActionState::Executing && f1.path_index == 1
                            && queued_after(a0, a1, ActionType::MoveDelta(d)),
                        None => state == ActionState::Failure && f1.path_index == 0 && a1 == a0,
                    }
                } else {
                    state == ActionState::Success && f1.path_index == 0 && a1 == a0
                }
            },
            None => state == ActionState::Executing && f1 == f0 && queued_after(
                a0,
                a1,
                ActionType::MoveDelta(away(ai_pos, threat_pos)),
            ),
        },
    }
}

/// What `continue_flee` does (`f0` becoming `f1`, the actor `a0` becoming
/// `a1`): along the stored escape path when there is one (the actor moves the
/// way following it gives, or fails when there is none), else straight away
/// from the threat. Only the path index may change.
pub open spec fn flee_continued<W: Fn(Position) -> bool>(
    f0: FleeFromPlayerAction,
    f1: FleeFromPlayerAction,
    a0: TurnActor,
    a1: TurnActor,
    ai_pos: Position,
    threat_pos: Position,
    is_walkable: W,
    state: ActionState,
) -> bool {
    &&& f1.escape_path@ == f0.escape_path@
    &&& f1.escape_target == f0.escape_target
    &&& f1.threat_pos_when_path_generated == f0.threat_pos_when_path_generated
    &&& f1.ai_pos_when_path_generated == f0.ai_pos_when_path_generated
    &&& if f0.escape_path@.len() == 0 {
        state == ActionState::Executing && f1.path_index == f0.path_index && queued_after(
            a0,
            a1,
            ActionType::MoveDelta(away(ai_pos, threat_pos)),
        )
    } else {
        exists|r: Option<Direction>|
            #[trigger] follow_outcome(
                f0.escape_path@,
                f0.path_index as int,
                ai_pos,
                is_walkable,
                r,
                f1.path_index as int,
            ) && match r {
                Some(d) => state == ActionState::Executing && queued_after(
                    a0,
                    a1,
                    ActionType::MoveDelta(d),
                ),
                None => state == ActionState::Failure && a1 == a0,
            }
    }
}

/// `p` is what `find_path` gave for (actor, `dest`) when there is a
/// destination, and `None` when there is none.
pub open spec fn path_for<P: Fn(Position, Position) -> Option<Vec<Position>>>(
    find_path: P,
    ai_pos: Position,
    dest: Option<Position>,
    p: Option<Vec<Position>>,
) -> bool {
    match dest {
        Some(t) => find_path.ensures((ai_pos, t), p),
        None => p is None,
    }
}

/// Before a running flight goes on, when `should_regenerate_escape_path` says
/// so and a destination is found, the path found to it is recorded; `f0`
/// becomes `f1`.
pub open spec fn escape_path_refreshed<W: Fn(Position) -> bool, P: Fn(Position, Position) -> Option<Vec<Position>>>(
    f0: FleeFromPlayerAction,
    f1: FleeFromPlayerAction,
    ai_pos: Position,
    threat_pos: Position,
    escape_points: Seq<(i32, i32)>,
    is_walkable: W,
    find_path: P,
) -> bool {
    exists|regen: bool|
        #[trigger] escape_regen_answer(f0, ai_pos, threat_pos, is_walkable, regen) && if regen {
            exists|dest: Option<Position>|
                #[trigger] escape_destination(is_walkable, ai_pos, threat_pos, escape_points, dest)
                    && match dest {
                    Some(t) => exists|p: Option<Vec<Position>>|
                        #[trigger] find_path.ensures((ai_pos, t), p) && escape_path_installed(
                            f0,
                            f1,
                            ai_pos,
                            threat_pos,
                            t,
                            p,
                        ),
                    None => f1 == f0,
                }
        } else {
            f1 == f0
        }
}

impl FleeFromPlayerAction {
    /// Records the escape path found to `escape_target` (index 0) with the
    /// target and the threat's and actor's positions; without a path only the
    /// old path is dropped.
    pub fn install_escape_path(
        &mut self,
        ai_pos: Position,
        threat_pos: Position,
        escape_target: Position,
        path: Option<Vec<Position>>,
    )
        ensures
            escape_path_installed(*old(self), *final(self), ai_pos, threat_pos, escape_target, path),
    {
        match path {
            Some(p) => {
                self.escape_path = p;
                self.path_index = 0;
                self.escape_target = Some(escape_target);
                self.threat_pos_when_path_generated = Some(threat_pos);
                self.ai_pos_when_path_generated = Some(ai_pos);
            },
            None => {
                self.escape_path.clear();
            },
        }
    }
}

/// Starts fleeing toward `escape_target` along `path` (the path found to it,
/// if any). No destination: failure. With a path, it is recorded; with at
/// least two cells the actor moves toward the second (index 1), or fails when
/// it stands there; a shorter path means the destination is reached. Without
/// a path the actor simply moves away from the threat.
pub fn start_flee(
    flee_action: &mut FleeFromPlayerAction,
    ai_actor: &mut TurnActor,
    ai_pos: Position,
    threat_pos: Position,
    escape_target: Option<Position>,
    path: Option<Vec<Position>>,
) -> (state: ActionState)
    ensures
        flee_started(*old(flee_action), *final(flee_action), *old(ai_actor), *final(ai_actor), ai_pos, threat_pos, escape_target, path, state),
{
    let escape_target = match escape_target {
        Some(t) => t,
        None => {
            return ActionState::Failure;
        },
    };
    match path {
        Some(p) => {
            flee_action.install_escape_path(ai_pos, threat_pos, escape_target, Some(p));
            if flee_action.escape_path.len() > 1 {
                let next_pos = flee_action.escape_path[1];
                match calculate_direction_to_target(&ai_pos, &next_pos) {
                    Some(dir) => {
                        queue_move_delta(ai_actor, dir);
                        flee_action.path_index = 1;
                        ActionState::Executing
                    },
                    None => ActionState::Failure,
                }
            } else {
                ActionState::Success
            }
        },
        None => {
            match calculate_direction_away_from_target(&ai_pos, &threat_pos) {
                Some(dir) => {
                    queue_move_delta(ai_actor, dir);
                    ActionState::Executing
                },
                None => ActionState::Failure,
            }
        },
    }
}

/// Goes on fleeing: along the stored escape path when there is one, else
/// straight away from the threat; the actor moves that way, or fails when
/// following the path gives no direction.
pub fn continue_flee<W: Fn(Position) -> bool>(
    flee_action: &mut FleeFromPlayerAction,
    ai_actor: &mut TurnActor,
    ai_pos: Position,
    threat_pos: Position,
    is_walkable: &W,
) -> (state: ActionState)
    requires
        old(flee_action).path_index < usize::MAX,
        forall|p: Position| #[trigger] is_walkable.requires((p,)),
    ensures
        flee_continued(*old(flee_action), *final(flee_action), *old(ai_actor), *final(ai_actor), ai_pos, threat_pos, *is_walkable, state),
{
    if flee_action.escape_path.len() > 0 {
        let next_move = follow_path(
            &flee_action.escape_path,
            &mut flee_action.path_index,
            ai_pos,
            is_walkable,
        );
        assert(follow_outcome(
            old(flee_action).escape_path@,
            old(flee_action).path_index as int,
            ai_pos,
            *is_walkable,
            next_move,
            flee_action.path_index as int,
        ));
        match next_move {
            Some(direction) => {
                queue_move_delta(ai_actor, direction);
                ActionState::Executing
            },
            None => ActionState::Failure,
        }
    } else {
        match calculate_direction_away_from_target(&ai_pos, &threat_pos) {
            Some(direction) => {
                queue_move_delta(ai_actor, direction);
                ActionState::Executing
            },
            None => ActionState::Failure,
        }
    }
}

/// One run of the flee behaviour for one actor. An actor with actions queued,
/// or whose behaviour finished, is left alone; a cancelled behaviour fails. A
/// new flight finds an escape destination (`find_escape_destination`), asks
/// `find_path` for a path to it and starts (`start_flee`). A running one
/// first, when `should_regenerate_escape_path` says so and a destination is
/// found, records the new path (`install_escape_path`), then goes on
/// (`continue_flee`).
pub fn flee_action_step<W: Fn(Position) -> bool, P: Fn(Position, Position) -> Option<
    Vec<Position>,
>>(
    action_state: ActionState,
    flee_action: &mut FleeFromPlayerAction,
    ai_actor: &mut TurnActor,
    ai_pos: Position,
    threat_pos: Position,
    is_walkable: &W,
    find_path: &P,
    escape_points: &Vec<(i32, i32)>,
) -> (state: ActionState)
    requires
        within(ai_pos, 5),
        samples_within(escape_points@, 2),
        old(flee_action).path_index < usize::MAX,
        forall|p: Position| #[trigger] is_walkable.requires((p,)),
        forall|a: Position, b: Position| #[trigger] find_path.requires((a, b)),
    ensures
        ({
            let (s, step) = advanced(action_state, old(ai_actor).pending().len() > 0);
            if step == ActionStep::Skip {
                state == s && *final(flee_action) == *old(flee_action) && *final(ai_actor) == *old(
                    ai_actor)
            } else {
                &&& state == ActionState::Executing || state == ActionState::Success || state
                    == ActionState::Failure
                &&& state == ActionState::Executing ==> moved_one_step(*old(ai_actor), *final(ai_actor))
                &&& state != ActionState::Executing ==> *final(ai_actor) == *old(ai_actor)
                &&& step == ActionStep::Start ==> exists|dest: Option<Position>, p: Option<Vec<Position>>|
                    #![trigger escape_destination(*is_walkable, ai_pos, threat_pos, escape_points@, dest), path_for(*find_path, ai_pos, dest, p)]
                    escape_destination(*is_walkable, ai_pos, threat_pos, escape_points@, dest)
                        && path_for(*find_path, ai_pos, dest, p) && flee_started(
                        *old(flee_action),
                        *final(flee_action),
                        *old(ai_actor),
                        *final(ai_actor),
                        ai_pos,
                        threat_pos,
                        dest,
                        p,
                        state,
                    )
                &&& step == ActionStep::Continue ==> exists|f1: FleeFromPlayerAction|
                    #[trigger] escape_path_refreshed(
                        *old(flee_action),
                        f1,
                        ai_pos,
                        threat_pos,
                        escape_points@,
                        *is_walkable,
                        *find_path,
                    ) && flee_continued(
                        f1,
                        *final(flee_action),
                        *old(ai_actor),
                        *final(ai_actor),
                        ai_pos,
                        threat_pos,
                        *is_walkable,
                        state,
                    )
            }
        }),
{
    let has_action = ai_actor.has_action();
    let (state, step) = advance_action_state(action_state, has_action);
    match step {
        ActionStep::Skip => state,
        ActionStep::Start => {
            let escape_target = find_escape_destination(ai_pos, threat_pos, escape_points, is_walkable);
            let path = match escape_target {
                Some(t) => find_path(ai_pos, t),
                None => None,
            };
            assert(path_for(*find_path, ai_pos, escape_target, path));
            start_flee(flee_action, ai_actor, ai_pos, threat_pos, escape_target, path)
        },
        ActionStep::Continue => {
            let ghost f0 = *flee_action;
            let regen = flee_action.should_regenerate_escape_path(ai_pos, threat_pos, is_walkable);
            let ghost mut dest: Option<Position> = None;
            let ghost mut p: Option<Vec<Position>> = None;
            if regen {
                let found = find_escape_destination(ai_pos, threat_pos, escape_points, is_walkable);
                proof {
                    dest = found;
                }
                if let Some(new_escape_target) = found {
                    let path = find_path(ai_pos, new_escape_target);
                    proof {
                        p = path;
                    }
                    flee_action.install_escape_path(ai_pos, threat_pos, new_escape_target, path);
                }
            }
            let ghost f1 = *flee_action;
            assert(escape_regen_answer(f0, ai_pos, threat_pos, *is_walkable, regen));
            assert(escape_path_refreshed(f0, f1, ai_pos, threat_pos, escape_points@, *is_walkable, *find_path)) by {
                if regen {
                    assert(escape_destination(*is_walkable, ai_pos, threat_pos, escape_points@, dest));
                    if let Some(t) = dest {
                        assert(find_path.ensures((ai_pos, t), p));
                    }
                }
            }
            continue_flee(flee_action, ai_actor, ai_pos, threat_pos, is_walkable)
        },
    }
}

// ---------------------------------------------------------------------------
// Attacking and idling
// ---------------------------------------------------------------------------

/// Attacks the player when in attack range: the actor moves in the
/// direction `tactical` picks toward the player (success), unless it picks
/// none. Returns whether the attack was made.
pub fn try_attack_player<T: Fn(Position, Position) -> Option<Direction>>(
    ai_actor: &mut TurnActor,
    ai_pos: Position,
    player_pos: Position,
    tactical: &T,
) -> (attacked: bool)
    requires
        forall|a: Position, b: Position| #[trigger] tactical.requires((a, b)),
    ensures
        dist2(ai_pos, player_pos) > 1 ==> !attacked && *final(ai_actor) == *old(ai_actor),
        dist2(ai_pos, player_pos) <= 1 ==> (exists|d: Direction|
            #![trigger tactical.ensures((ai_pos, player_pos), Some(d))]
            tactical.ensures((ai_pos, player_pos), Some(d)) && attacked && queued_after(
                *old(ai_actor),
                *final(ai_actor),
                ActionType::MoveDelta(d),
            )) || (tactical.ensures((ai_pos, player_pos), None) && !attacked && *final(ai_actor)
            == *old(ai_actor)),
{
    if in_attack_range(&ai_pos, &player_pos) {
        match tactical(ai_pos, player_pos) {
            Some(direction) => {
                queue_move_delta(ai_actor, direction);
                true
            },
            None => false,
        }
    } else {
        false
    }
}

/// One run of the attack behaviour for one actor. An actor with actions
/// queued, or whose behaviour finished, is left alone; a cancelled behaviour
/// fails. Otherwise the actor tries to attack (`try_attack_player`): success,
/// or failure with a step straight toward the player (none when on its cell).
pub fn attack_action_step<T: Fn(Position, Position) -> Option<Direction>>(
    action_state: ActionState,
    ai_actor: &mut TurnActor,
    ai_pos: Position,
    player_pos: Position,
    tactical: &T,
) -> (state: ActionState)
    requires
        forall|a: Position, b: Position| #[trigger] tactical.requires((a, b)),
    ensures
        ({
            let (s, step) = advanced(action_state, old(ai_actor).pending().len() > 0);
            if step == ActionStep::Skip {
                state == s && *final(ai_actor) == *old(ai_actor)
            } else {
                &&& state == ActionState::Success ==> dist2(ai_pos, player_pos) <= 1
                    && moved_one_step(*old(ai_actor), *final(ai_actor))
                &&& state == ActionState::Success || state == ActionState::Failure
                &&& state == ActionState::Failure ==> match toward(ai_pos, player_pos) {
                    Some(d) => queued_after(*old(ai_actor), *final(ai_actor), ActionType::MoveDelta(d)),
                    None => *final(ai_actor) == *old(ai_actor),
                }
                &&& dist2(ai_pos, player_pos) > 1 ==> state == ActionState::Failure
            }
        }),
{
    let has_action = ai_actor.has_action();
    let (state, step) = advance_action_state(action_state, has_action);
    match step {
        ActionStep::Skip => state,
        _ => {
            if try_attack_player(ai_actor, ai_pos, player_pos, tactical) {
                ActionState::Success
            } else {
                if let Some(dir) = calculate_direction_to_target(&ai_pos, &player_pos) {
                    queue_move_delta(ai_actor, dir);
                }
                ActionState::Failure
            }
        },
    }
}

/// One run of the idle behaviour: a new behaviour is requested; a requested
/// one queues a wait unless an action is already pending, and executes; an
/// executing one succeeds once nothing is pending; a finished or cancelled
/// one starts over.
pub fn idle_action_step(action_state: ActionState, turn_actor: &mut TurnActor) -> (state:
    ActionState)
    ensures
        state == (match action_state {
            ActionState::Init => ActionState::Requested,
            ActionState::Requested => ActionState::Executing,
            ActionState::Executing => if old(turn_actor).pending().len() == 0 {
                ActionState::Success
            } else {
                ActionState::Executing
            },
            _ => ActionState::Init,
        }),
        action_state == ActionState::Requested && old(turn_actor).pending().len() == 0 ==> queued_after(
            *old(turn_actor),
            *final(turn_actor),
            ActionType::Wait,
        ),
        !(action_state == ActionState::Requested && old(turn_actor).pending().len() == 0) ==> *final(
            turn_actor) == *old(turn_actor),
{
    match action_state {
        ActionState::Init => ActionState::Requested,
        ActionState::Requested => {
            if turn_actor.peek_next_action().is_some() {
                return ActionState::Executing;
            }
            let _ = turn_actor.queue_action(ActionType::Wait);
            ActionState::Executing
        },
        ActionState::Executing => {
            if turn_actor.peek_next_action().is_none() {
                ActionState::Success
            } else {
                ActionState::Executing
            }
        },
        ActionState::Success => ActionState::Init,
        ActionState::Failure => ActionState::Init,
        ActionState::Cancelled => ActionState::Init,
    }
}

/// Queuing never makes the regular queue exceed its limit: a queue within
/// its limit stays within it.
pub proof fn lemma_queue_limit_kept(before: TurnActor, after: TurnActor, a: ActionType)
    requires
        before.actions@.len() <= before.max_queued_actions,
        queued_after(before, after, a),
    ensures
        after.actions@.len() <= after.max_queued_actions,
{
}

// ---------------------------------------------------------------------------
// Scores (in hundredths: 100 is full interest)
// ---------------------------------------------------------------------------

/// Interest of a hostile entity in chasing, in hundredths: full when it sees
/// the player within its detection range (the sighting is then recorded) or
/// remembers where the player was and has not yet given up; none otherwise,
/// and none for entities that are not hostile.
pub fn calculate_chase_score(
    ai_behavior: &mut AIBehavior,
    player_visible: bool,
    within_detection_range: bool,
    player_pos: Position,
    current_turn: u64,
) -> (score: u32)
    ensures
        score == (if old(ai_behavior).behavior_type != AIBehaviorType::Hostile {
            0u32
        } else if player_visible {
            if within_detection_range {
                100u32
            } else {
                0u32
            }
        } else if old(ai_behavior).last_known_player_position is Some {
            if old(ai_behavior).wander_due(current_turn) {
                0u32
            } else {
                100u32
            }
        } else {
            0u32
        }),
        old(ai_behavior).behavior_type == AIBehaviorType::Hostile && player_visible
            && within_detection_range ==> final(ai_behavior).last_known_player_position == Some(
            player_pos) && final(ai_behavior).last_player_seen_turn == Some(current_turn)
            && final(ai_behavior).behavior_type == old(ai_behavior).behavior_type && final(
            ai_behavior).detection_range == old(ai_behavior).detection_range && final(
            ai_behavior).turns_before_wander == old(ai_behavior).turns_before_wander,
        !(old(ai_behavior).behavior_type == AIBehaviorType::Hostile && player_visible
            && within_detection_range) ==> *final(ai_behavior) == *old(ai_behavior),
{
    if ai_behavior.behavior_type != AIBehaviorType::Hostile {
        return 0;
    }
    if player_visible {
        if within_detection_range {
            ai_behavior.update_player_sighting(player_pos, current_turn);
            100
        } else {
            0
        }
    } else if ai_behavior.last_known_player_position.is_some() {
        if ai_behavior.should_switch_to_wander(current_turn) {
            0
        } else {
            100
        }
    } else {
        0
    }
}

/// Base interest in wandering, in hundredths, by temperament.
pub open spec fn base_wander_score(t: AIBehaviorType) -> int {
    match t {
        AIBehaviorType::Neutral => 40,
        AIBehaviorType::Hostile => 20,
        AIBehaviorType::Passive => 30,
    }
}

/// Interest in wandering, in hundredths: the temperament's base interest,
/// a tenth of it when the player is in sight (the sighting is then
/// recorded), one and a half times it once the entity gives up the chase.
pub fn calculate_wander_score(
    ai_behavior: &mut AIBehavior,
    player_visible: bool,
    player_pos: Position,
    current_turn: u64,
) -> (score: u32)
    ensures
        score == (if player_visible {
            base_wander_score(old(ai_behavior).behavior_type) / 10
        } else if old(ai_behavior).wander_due(current_turn) {
            base_wander_score(old(ai_behavior).behavior_type) * 3 / 2
        } else {
            base_wander_score(old(ai_behavior).behavior_type)
        }),
        player_visible ==> final(ai_behavior).last_known_player_position == Some(player_pos)
            && final(ai_behavior).last_player_seen_turn == Some(current_turn) && final(
            ai_behavior).behavior_type == old(ai_behavior).behavior_type && final(
            ai_behavior).detection_range == old(ai_behavior).detection_range && final(
            ai_behavior).turns_before_wander == old(ai_behavior).turns_before_wander,
        !player_visible ==> *final(ai_behavior) == *old(ai_behavior),
{
    let base_score: u32 = match ai_behavior.behavior_type {
        AIBehaviorType::Neutral => 40,
        AIBehaviorType::Hostile => 20,
        AIBehaviorType::Passive => 30,
    };
    if player_visible {
        ai_behavior.update_player_sighting(player_pos, current_turn);
        base_score / 10
    } else if ai_behavior.should_switch_to_wander(current_turn) {
        base_score * 3 / 2
    } else {
        base_score
    }
}

// ---------------------------------------------------------------------------
// Side steps
// ---------------------------------------------------------------------------

/// The `i`-th cardinal direction in the order they are tried: north, east,
/// south, west.
pub open spec fn cardinal_at(i: int) -> Direction {
    if i == 0 {
        Direction::North
    } else if i == 1 {
        Direction::East
    } else if i == 2 {
        Direction::South
    } else {
        Direction::West
    }
}

/// The cell one step from `p` in direction `d`.
pub open spec fn step_cell(p: Position, d: Direction) -> Position {
    offset_cell(p, dir_delta(d).0, dir_delta(d).1)
}

/// The `i`-th cardinal direction; see `cardinal_at`.
fn cardinal(i: usize) -> (d: Direction)
    requires
        i < 4,
    ensures
        d == cardinal_at(i as int),
{
    if i == 0 {
        Direction::North
    } else if i == 1 {
        Direction::East
    } else if i == 2 {
        Direction::South
    } else {
        Direction::West
    }
}

/// The cell one step from `p` in cardinal direction `d`, computed.
fn cardinal_step(p: Position, d: Direction) -> (c: Position)
    requires
        within(p, 1),
        d == Direction::North || d == Direction::East || d == Direction::South || d == Direction::West,
    ensures
        c == step_cell(p, d),
{
    match d {
        Direction::North => Position::new(p.x, p.y - 1),
        Direction::East => Position::new(p.x + 1, p.y),
        Direction::South => Position::new(p.x, p.y + 1),
        _ => Position::new(p.x - 1, p.y),
    }
}

/// The cell one step from `from` in the `i`-th cardinal direction.
pub open spec fn cardinal_cell(from: Position, i: int) -> Position {
    step_cell(from, cardinal_at(i))
}

/// The walkability test gave `answers[i]` for each of the four cells one
/// step from `from` in the cardinal directions.
pub open spec fn cardinal_answers<W: Fn(Position) -> bool>(w: W, from: Position, answers: Seq<bool>) -> bool {
    &&& answers.len() == 4
    &&& forall|i: int| 0 <= i < 4 ==> w.ensures((cardinal_cell(from, i),), #[trigger] answers[i])
}

/// Of the first `k` cardinal directions, the one whose cell is walkable (by
/// `answers`) and nearest to `to` by squared distance, the first among
/// equally near ones; `None` when none is walkable.
pub open spec fn nearest_walkable(from: Position, to: Position, answers: Seq<bool>, k: int) -> Option<
    Direction,
>
    decreases k,
{
    if k <= 0 {
        None
    } else {
        let prev = nearest_walkable(from, to, answers, k - 1);
        if answers[k - 1] && match prev {
            None => true,
            Some(d) => dist2(cardinal_cell(from, k - 1), to) < dist2(step_cell(from, d), to),
        } {
            Some(cardinal_at(k - 1))
        } else {
            prev
        }
    }
}

/// A step around an obstacle toward `to`: of the walkable cells one step
/// from `from` in the cardinal directions (tried north, east, south, west),
/// the one nearest to `to` (the first among equally near ones); `None` when
/// none is walkable.
pub fn find_alternative_direction<W: Fn(Position) -> bool>(
    from: Position,
    to: Position,
    is_walkable: &W,
) -> (r: Option<Direction>)
    requires
        within(from, 1),
        forall|p: Position| #[trigger] is_walkable.requires((p,)),
    ensures
        exists|answers: Seq<bool>|
            #[trigger] cardinal_answers(*is_walkable, from, answers) && r == nearest_walkable(
                from,
                to,
                answers,
                4,
            ),
{
    let ghost mut answers: Seq<bool> = Seq::empty();
    let mut best: Option<Direction> = None;
    let mut best_distance: i128 = 0;
    let mut i: usize = 0;
    while i < 4
        invariant
            within(from, 1),
            forall|p: Position| #[trigger] is_walkable.requires((p,)),
            i <= 4,
            answers.len() == i,
            forall|j: int| 0 <= j < i ==> is_walkable.ensures((cardinal_cell(from, j),), #[trigger] answers[j]),
            best == nearest_walkable(from, to, answers, i as int),
            best matches Some(d) ==> best_distance == dist2(step_cell(from, d), to),
        decreases 4 - i,
    {
        let dir = cardinal(i);
        let c = cardinal_step(from, dir);
        let ok = is_walkable(c);
        let distance = c.distance_squared(&to);
        let ghost old_answers = answers;
        proof {
            answers = answers.push(ok);
            assert forall|k: int| 0 <= k <= i implies nearest_walkable(from, to, answers, k)
                == nearest_walkable(from, to, old_answers, k) by {
                lemma_nearest_prefix(from, to, old_answers, answers, k);
            }
        }
        if ok {
            let better = match best {
                None => true,
                Some(_) => distance < best_distance,
            };
            if better {
                best = Some(dir);
                best_distance = distance;
            }
        }
        i = i + 1;
    }
    assert(cardinal_answers(*is_walkable, from, answers));
    best
}

/// `nearest_walkable` over the first `k` directions reads only the first `k`
/// answers.
proof fn lemma_nearest_prefix(from: Position, to: Position, a: Seq<bool>, b: Seq<bool>, k: int)
    requires
        0 <= k <= a.len(),
        a.len() <= b.len(),
        forall|j: int| 0 <= j < a.len() ==> a[j] == b[j],
    ensures
        nearest_walkable(from, to, a, k) == nearest_walkable(from, to, b, k),
    decreases k,
{
    if k > 0 {
        lemma_nearest_prefix(from, to, a, b, k - 1);
    }
}

/// Of the first `k` cardinal directions, the one whose cell is walkable (by
/// `answers`) and farthest from `away_from` by squared distance, the first
/// among equally far ones; a cell on `away_from` itself is never taken;
/// `None` when there is no such cell.
pub open spec fn farthest_walkable(from: Position, away_from: Position, answers: Seq<bool>, k: int) -> Option<
    Direction,
>
    decreases k,
{
    if k <= 0 {
        None
    } else {
        let prev = farthest_walkable(from, away_from, answers, k - 1);
        if answers[k - 1] && dist2(cardinal_cell(from, k - 1), away_from) > match prev {
            None => 0,
            Some(d) => dist2(step_cell(from, d), away_from),
        } {
            Some(cardinal_at(k - 1))
        } else {
            prev
        }
    }
}

/// `farthest_walkable` over the first `k` directions reads only the first
/// `k` answers.
proof fn lemma_farthest_prefix(from: Position, to: Position, a: Seq<bool>, b: Seq<bool>, k: int)
    requires
        0 <= k <= a.len(),
        a.len() <= b.len(),
        forall|j: int| 0 <= j < a.len() ==> a[j] == b[j],
    ensures
        farthest_walkable(from, to, a, k) == farthest_walkable(from, to, b, k),
    decreases k,
{
    if k > 0 {
        lemma_farthest_prefix(from, to, a, b, k - 1);
    }
}

/// A step away from `away_from` when the direct way is blocked: of the
/// walkable cells one step from `from` in the cardinal directions (tried
/// north, east, south, west), the one farthest from `away_from` (the first
/// among equally far ones); `None` when there is none.
pub fn find_alternative_flee_direction<W: Fn(Position) -> bool>(
    from: Position,
    away_from: Position,
    is_walkable: &W,
) -> (r: Option<Direction>)
    requires
        within(from, 1),
        forall|p: Position| #[trigger] is_walkable.requires((p,)),
    ensures
        exists|answers: Seq<bool>|
            #[trigger] cardinal_answers(*is_walkable, from, answers) && r == farthest_walkable(
                from,
                away_from,
                answers,
                4,
            ),
{
    let ghost mut answers: Seq<bool> = Seq::empty();
    let mut best: Option<Direction> = None;
    let mut best_distance: i128 = 0;
    let mut i: usize = 0;
    while i < 4
        invariant
            within(from, 1),
            forall|p: Position| #[trigger] is_walkable.requires((p,)),
            i <= 4,
            answers.len() == i,
            forall|j: int| 0 <= j < i ==> is_walkable.ensures((cardinal_cell(from, j),), #[trigger] answers[j]),
            best == farthest_walkable(from, away_from, answers, i as int),
            best_distance == (match best {
                None => 0,
                Some(d) => dist2(step_cell(from, d), away_from),
            }),
        decreases 4 - i,
    {
        let dir = cardinal(i);
        let c = cardinal_step(from, dir);
        let ok = is_walkable(c);
        let distance = c.distance_squared(&away_from);
        let ghost old_answers = answers;
        proof {
            answers = answers.push(ok);
            assert forall|k: int| 0 <= k <= i implies farthest_walkable(from, away_from, answers, k)
                == farthest_walkable(from, away_from, old_answers, k) by {
                lemma_farthest_prefix(from, away_from, old_answers, answers, k);
            }
        }
        if ok && distance > best_distance {
            best = Some(dir);
            best_distance = distance;
        }
        i = i + 1;
    }
    assert(cardinal_answers(*is_walkable, from, answers));
    best
}

/// A random walkable step: one of the cardinal directions whose cell one
/// step from `from` is walkable, drawn by `fastrand`; `None` when none is.
pub fn find_random_walkable_direction<W: Fn(Position) -> bool>(from: Position, is_walkable: &W) -> (r:
    Option<Direction>)
    requires
        within(from, 1),
        forall|p: Position| #[trigger] is_walkable.requires((p,)),
    ensures
        exists|answers: Seq<bool>|
            #[trigger] cardinal_answers(*is_walkable, from, answers) && (r is None <==> forall|k: int|
                0 <= k < 4 ==> !answers[k]) && (r matches Some(d) ==> exists|k: int|
                0 <= k < 4 && answers[k] && d == #[trigger] cardinal_at(k)),
{
    let ghost mut answers: Seq<bool> = Seq::empty();
    let mut walkable: Vec<Direction> = Vec::new();
    let ghost mut from_index: Seq<int> = Seq::empty();
    let mut i: usize = 0;
    while i < 4
        invariant
            within(from, 1),
            forall|p: Position| #[trigger] is_walkable.requires((p,)),
            i <= 4,
            answers.len() == i,
            forall|j: int| 0 <= j < i ==> is_walkable.ensures((cardinal_cell(from, j),), #[trigger] answers[j]),
            from_index.len() == walkable@.len(),
            forall|q: int|
                0 <= q < walkable@.len() ==> 0 <= #[trigger] from_index[q] < i && answers[from_index[q]]
                    && walkable@[q] == cardinal_at(from_index[q]),
            walkable@.len() == 0 <==> forall|j: int| 0 <= j < i ==> !#[trigger] answers[j],
        decreases 4 - i,
    {
        let dir = cardinal(i);
        let c = cardinal_step(from, dir);
        let ok = is_walkable(c);
        let ghost old_answers = answers;
        let ghost old_index = from_index;
        let ghost old_w = walkable@;
        proof {
            answers = answers.push(ok);
        }
        if ok {
            walkable.push(dir);
            proof {
                from_index = from_index.push(i as int);
                assert forall|q: int| 0 <= q < walkable@.len() implies 0 <= #[trigger] from_index[q] < i + 1
                    && answers[from_index[q]] && walkable@[q] == cardinal_at(from_index[q]) by {
                    if q < old_w.len() {
                        assert(walkable@[q] == old_w[q] && from_index[q] == old_index[q]);
                    }
                }
            }
        } else {
            proof {
                assert forall|q: int| 0 <= q < walkable@.len() implies 0 <= #[trigger] from_index[q] < i + 1
                    && answers[from_index[q]] && walkable@[q] == cardinal_at(from_index[q]) by {
                    assert(answers[from_index[q]] == old_answers[from_index[q]]);
                }
            }
        }
        proof {
            if walkable@.len() == 0 {
                assert forall|j: int| 0 <= j < i + 1 implies !#[trigger] answers[j] by {
                    if j < i {
                        assert(answers[j] == old_answers[j]);
                    }
                }
            } else {
                let q0 = 0int;
                assert(answers[from_index[q0]]);
            }
        }
        i = i + 1;
    }
    assert(cardinal_answers(*is_walkable, from, answers));
    if walkable.len() == 0 {
        return None;
    }
    let k = thread_random_index(walkable.len());
    let d = walkable[k];
    assert(walkable@[k as int] == d);
    assert(d == cardinal_at(from_index[k as int]));
    Some(d)
}

} // verus!
