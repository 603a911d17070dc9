use vstd::prelude::*;

use crate::action::ActionType;
use crate::ai::{
    first_occurrence, position_in_path, AIAction, AIBehavior, AIBehaviorType, AIState, ActionState,
};
use crate::behavior::{queue_move_delta, queued_after};
use crate::position::{cardinal_of, position_to_direction, sign, Direction, Position};
use crate::turn_actor::TurnActor;

verus! {

/// Search algorithms the map's path search offers.
#[derive(Clone, Copy, Debug, PartialEq, Eq, Structural)]
pub enum PathfindingAlgorithm {
    AStar,
    Dijkstra,
}

/// Path-following state of an AI entity: the path being followed, the target
/// it leads to, when it was last computed, and the settings its searches run
/// with. Paths themselves come from the map's path search, handed in as
/// closures.
pub struct AIPathfinding {
    pub current_path: Vec<Position>,
    pub target_position: Option<Position>,
    /// Turns after which the path is computed again.
    pub recalculate_threshold: u32,
    /// Turn at which the path was last computed.
    pub last_recalculation: u64,
    /// Search algorithm.
    pub algorithm: PathfindingAlgorithm,
    /// Most steps a search may take.
    pub max_iterations: usize,
    /// Whether searches may step diagonally.
    pub allow_diagonal: bool,
}

/// Settings applied to the path searches of every AI entity.
#[derive(Clone, Copy, Debug, PartialEq, Eq, Structural)]
pub struct AIPathfindingConfig {
    pub default_algorithm: PathfindingAlgorithm,
    pub max_iterations: usize,
    pub allow_diagonal: bool,
    pub recalculation_threshold: u32,
    pub enable_path_caching: bool,
}

impl Default for AIPathfindingConfig {
    /// A* with at most 1000 steps, no diagonal steps, paths computed again
    /// every 5 turns, caching on.
    fn default() -> (c: AIPathfindingConfig)
        ensures
            c.default_algorithm == PathfindingAlgorithm::AStar,
            c.max_iterations == 1000,
            !c.allow_diagonal,
            c.recalculation_threshold == 5,
            c.enable_path_caching,
    {
        AIPathfindingConfig {
            default_algorithm: PathfindingAlgorithm::AStar,
            max_iterations: 1000,
            allow_diagonal: false,
            recalculation_threshold: 5,
            enable_path_caching: true,
        }
    }
}

/// Applies the configuration to one entity's path searches: step limit,
/// diagonal steps and recalculation threshold; its path, target, algorithm
/// and last computation stay.
pub fn apply_pathfinding_config(config: &AIPathfindingConfig, pathfinding: &mut AIPathfinding)
    ensures
        final(pathfinding).max_iterations == config.max_iterations,
        final(pathfinding).allow_diagonal == config.allow_diagonal,
        final(pathfinding).recalculate_threshold == config.recalculation_threshold,
        final(pathfinding).current_path@ == old(pathfinding).current_path@,
        final(pathfinding).target_position == old(pathfinding).target_position,
        final(pathfinding).algorithm == old(pathfinding).algorithm,
        final(pathfinding).last_recalculation == old(pathfinding).last_recalculation,
{
    pathfinding.max_iterations = config.max_iterations;
    pathfinding.allow_diagonal = config.allow_diagonal;
    pathfinding.recalculate_threshold = config.recalculation_threshold;
}

/// The cell after `current` on `path`: the cell after its first occurrence
/// (none past the end); when `current` is not on the path, the path's first
/// cell (none for an empty path).
pub open spec fn next_step_of(path: Seq<Position>, current: Position) -> Option<Position> {
    if exists|i: int| first_occurrence(path, current, i) {
        let i = choose|i: int| first_occurrence(path, current, i);
        if i + 1 < path.len() {
            Some(path[i + 1])
        } else {
            None
        }
    } else if path.len() > 0 {
        Some(path[0])
    } else {
        None
    }
}

/// The test answers let the path go on through `c`: walkable, and free of
/// actors unless `c` is the target.
pub open spec fn step_clear<W: Fn(Position) -> bool, A: Fn(Position) -> bool>(
    is_walkable: W,
    has_actor: A,
    target: Option<Position>,
    c: Position,
) -> bool {
    is_walkable.ensures((c,), true) && (target == Some(c) || has_actor.ensures((c,), false))
}

/// The test answers block the path at `c`: not walkable, or (unless `c` is
/// the target) occupied by an actor.
pub open spec fn step_blocked<W: Fn(Position) -> bool, A: Fn(Position) -> bool>(
    is_walkable: W,
    has_actor: A,
    target: Option<Position>,
    c: Position,
) -> bool {
    is_walkable.ensures((c,), false) || (target != Some(c) && has_actor.ensures((c,), true))
}

/// The answer `b` of `is_path_valid` for an entity on `current`: false for
/// an empty path or when `current` is not on it; otherwise true only when
/// every cell after the first occurrence of `current` is clear, and false
/// only when one of them is blocked.
pub open spec fn path_validity<W: Fn(Position) -> bool, A: Fn(Position) -> bool>(
    pf: AIPathfinding,
    current: Position,
    is_walkable: W,
    has_actor: A,
    b: bool,
) -> bool {
    let path = pf.current_path@;
    if !(exists|i: int| first_occurrence(path, current, i)) {
        !b
    } else {
        let i = choose|i: int| first_occurrence(path, current, i);
        &&& b ==> forall|j: int|
            i < j < path.len() ==> #[trigger] step_clear(
                is_walkable,
                has_actor,
                pf.target_position,
                path[j],
            )
        &&& !b ==> exists|j: int|
            i < j < path.len() && #[trigger] step_blocked(
                is_walkable,
                has_actor,
                pf.target_position,
                path[j],
            )
    }
}

/// The path is due for recalculation at `current_turn`: at least the
/// threshold of turns passed since the last one (none when the clock is
/// behind it).
pub open spec fn recalc_due(pf: AIPathfinding, current_turn: u64) -> bool {
    (if current_turn >= pf.last_recalculation {
        current_turn - pf.last_recalculation
    } else {
        0
    }) >= pf.recalculate_threshold
}

/// `pf1` is `pf0` after computing a path from `start` to `target` at
/// `current_turn`, with answer `found`: the target and turn are recorded;
/// the path is the one `find_path` gave when not empty, else the one
/// `find_nearest` gave (a path toward a cell near the target) when not
/// empty, else none and `found` is false.
pub open spec fn path_calculated<P: Fn(Position, Position) -> Vec<Position>, Q: Fn(Position, Position) -> Vec<Position>>(
    pf0: AIPathfinding,
    pf1: AIPathfinding,
    start: Position,
    target: Position,
    current_turn: u64,
    find_path: P,
    find_nearest: Q,
    found: bool,
) -> bool {
    &&& pf1.target_position == Some(target)
    &&& pf1.last_recalculation == current_turn
    &&& pf1.recalculate_threshold == pf0.recalculate_threshold
    &&& pf1.algorithm == pf0.algorithm
    &&& pf1.max_iterations == pf0.max_iterations
    &&& pf1.allow_diagonal == pf0.allow_diagonal
    &&& exists|p: Vec<Position>|
        #[trigger] find_path.ensures((start, target), p) && if p@.len() > 0 {
            found && pf1.current_path@ == p@
        } else {
            exists|q: Vec<Position>|
                #[trigger] find_nearest.ensures((start, target), q) && if q@.len() > 0 {
                    found && pf1.current_path@ == q@
                } else {
                    !found && pf1.current_path@.len() == 0
                }
        }
}

impl AIPathfinding {
    /// No path and no target, searching with `algorithm` (at most 1000
    /// steps, no diagonal steps); the path is computed again every 5 turns.
    pub fn new(algorithm: PathfindingAlgorithm) -> (pf: AIPathfinding)
        ensures
            pf.current_path@.len() == 0,
            pf.target_position is None,
            pf.recalculate_threshold == 5,
            pf.last_recalculation == 0,
            pf.algorithm == algorithm,
            pf.max_iterations == 1000,
            !pf.allow_diagonal,
    {
        AIPathfinding {
            current_path: Vec::new(),
            target_position: None,
            recalculate_threshold: 5,
            last_recalculation: 0,
            algorithm,
            max_iterations: 1000,
            allow_diagonal: false,
        }
    }

    /// The same, with diagonal steps allowed or not.
    pub fn with_diagonal(self, allow_diagonal: bool) -> (pf: AIPathfinding)
        ensures
            pf.allow_diagonal == allow_diagonal,
            pf.current_path@ == self.current_path@,
            pf.target_position == self.target_position,
            pf.recalculate_threshold == self.recalculate_threshold,
            pf.last_recalculation == self.last_recalculation,
            pf.algorithm == self.algorithm,
            pf.max_iterations == self.max_iterations,
    {
        let mut pf = self;
        pf.allow_diagonal = allow_diagonal;
        pf
    }

    /// The same, with another step limit.
    pub fn with_max_iterations(self, max_iterations: usize) -> (pf: AIPathfinding)
        ensures
            pf.max_iterations == max_iterations,
            pf.current_path@ == self.current_path@,
            pf.target_position == self.target_position,
            pf.recalculate_threshold == self.recalculate_threshold,
            pf.last_recalculation == self.last_recalculation,
            pf.algorithm == self.algorithm,
            pf.allow_diagonal == self.allow_diagonal,
    {
        let mut pf = self;
        pf.max_iterations = max_iterations;
        pf
    }

    /// Whether the path can still be followed from `current_pos`; see
    /// `path_validity`.
    pub fn is_path_valid<W: Fn(Position) -> bool, A: Fn(Position) -> bool>(
        &self,
        current_pos: Position,
        is_walkable: &W,
        has_actor: &A,
    ) -> (b: bool)
        requires
            forall|p: Position| #[trigger] is_walkable.requires((p,)),
            forall|p: Position| #[trigger] has_actor.requires((p,)),
        ensures
            path_validity(*self, current_pos, *is_walkable, *has_actor, b),
    {
        if self.current_path.len() == 0 {
            return false;
        }
        let start = match position_in_path(&self.current_path, current_pos) {
            Some(i) => i,
            None => {
                return false;
            },
        };
        let ghost i0 = start as int;
        assert(first_occurrence(self.current_path@, current_pos, i0));
        proof {
            let c = choose|i: int| first_occurrence(self.current_path@, current_pos, i);
            if c < i0 {
                assert(self.current_path@[c] != current_pos);
            } else if c > i0 {
                assert(self.current_path@[i0] != current_pos);
            }
        }
        let n = self.current_path.len();
        let mut j: usize = start + 1;
        while j < n
            invariant
                n == self.current_path@.len(),
                i0 + 1 <= j <= n,
                first_occurrence(self.current_path@, current_pos, i0),
                i0 == (choose|i: int| first_occurrence(self.current_path@, current_pos, i)),
                forall|p: Position| #[trigger] is_walkable.requires((p,)),
                forall|p: Position| #[trigger] has_actor.requires((p,)),
                forall|k: int|
                    i0 < k < j ==> #[trigger] step_clear(
                        *is_walkable,
                        *has_actor,
                        self.target_position,
                        self.current_path@[k],
                    ),
            decreases n - j,
        {
            let pos = self.current_path[j];
            let walkable = is_walkable(pos);
            if !walkable {
                assert(step_blocked(*is_walkable, *has_actor, self.target_position, self.current_path@[j as int]));
                return false;
            }
            if self.target_position != Some(pos) {
                let occupied = has_actor(pos);
                if occupied {
                    assert(step_blocked(*is_walkable, *has_actor, self.target_position, self.current_path@[j as int]));
                    return false;
                }
            }
            assert(step_clear(*is_walkable, *has_actor, self.target_position, self.current_path@[j as int]));
            j = j + 1;
        }
        true
    }

    /// Computes a new path from `start` to `target` at `current_turn`; see
    /// `path_calculated`. `find_path` is the map's path search;
    /// `find_nearest` searches a path to a cell within 3 of the target.
    pub fn calculate_path<P: Fn(Position, Position) -> Vec<Position>, Q: Fn(Position, Position) -> Vec<Position>>(
        &mut self,
        start: Position,
        target: Position,
        current_turn: u64,
        find_path: &P,
        find_nearest: &Q,
    ) -> (found: bool)
        requires
            forall|a: Position, b: Position| #[trigger] find_path.requires((a, b)),
            forall|a: Position, b: Position| #[trigger] find_nearest.requires((a, b)),
        ensures
            path_calculated(
                *old(self),
                *final(self),
                start,
                target,
                current_turn,
                *find_path,
                *find_nearest,
                found,
            ),
    {
        self.target_position = Some(target);
        self.last_recalculation = current_turn;
        let result = find_path(start, target);
        if result.len() > 0 {
            self.current_path = result;
            return true;
        }
        let nearby = find_nearest(start, target);
        assert(find_nearest.ensures((start, target), nearby));
        if nearby.len() > 0 {
            self.current_path = nearby;
            true
        } else {
            self.current_path.clear();
            false
        }
    }

    /// The next cell to step to from `current_pos`; see `next_step_of`.
    pub fn get_next_step(&self, current_pos: Position) -> (r: Option<Position>)
        ensures
            r == next_step_of(self.current_path@, current_pos),
    {
        match position_in_path(&self.current_path, current_pos) {
            Some(i) => {
                proof {
                    let c = choose|k: int| first_occurrence(self.current_path@, current_pos, k);
                    if c < i {
                        assert(self.current_path@[c] != current_pos);
                    } else if c > i {
                        assert(self.current_path@[i as int] != current_pos);
                    }
                }
                if i < self.current_path.len() - 1 {
                    Some(self.current_path[i + 1])
                } else {
                    None
                }
            },
            None => {
                if self.current_path.len() > 0 {
                    Some(self.current_path[0])
                } else {
                    None
                }
            },
        }
    }

    /// Whether the path is due to be computed again; see `recalc_due`.
    pub fn needs_recalculation(&self, current_turn: u64) -> (b: bool)
        ensures
            b == recalc_due(*self, current_turn),
    {
        current_turn.saturating_sub(self.last_recalculation) >= self.recalculate_threshold as u64
    }

    /// Drops the path and the target.
    pub fn clear_path(&mut self)
        ensures
            final(self).current_path@.len() == 0,
            final(self).target_position is None,
            final(self).recalculate_threshold == old(self).recalculate_threshold,
            final(self).last_recalculation == old(self).last_recalculation,
            final(self).algorithm == old(self).algorithm,
            final(self).max_iterations == old(self).max_iterations,
            final(self).allow_diagonal == old(self).allow_diagonal,
    {
        self.current_path.clear();
        self.target_position = None;
    }
}

/// Whether a running pathfinding behaviour needs a new path toward
/// `target` with answer `needs`: the stored target differs, or (testing the
/// path with the walkability and actor tests, answer `valid`) the path
/// cannot be followed, or it is due for recalculation.
pub open spec fn path_renewal<W: Fn(Position) -> bool, A: Fn(Position) -> bool>(
    pf: AIPathfinding,
    ai_pos: Position,
    target: Position,
    current_turn: u64,
    is_walkable: W,
    has_actor: A,
    needs: bool,
) -> bool {
    if pf.target_position != Some(target) {
        needs
    } else {
        exists|valid: bool|
            #[trigger] path_validity(pf, ai_pos, is_walkable, has_actor, valid) && needs == (!valid
                || recalc_due(pf, current_turn))
    }
}

/// Whether a pathfinding behaviour needs a new path; see `path_renewal`.
fn needs_new_path<W: Fn(Position) -> bool, A: Fn(Position) -> bool>(
    pf: &AIPathfinding,
    ai_pos: Position,
    target: Position,
    current_turn: u64,
    is_walkable: &W,
    has_actor: &A,
) -> (needs: bool)
    requires
        forall|p: Position| #[trigger] is_walkable.requires((p,)),
        forall|p: Position| #[trigger] has_actor.requires((p,)),
    ensures
        path_renewal(*pf, ai_pos, target, current_turn, *is_walkable, *has_actor, needs),
{
    if pf.target_position != Some(target) {
        return true;
    }
    let valid = pf.is_path_valid(ai_pos, is_walkable, has_actor);
    !valid || pf.needs_recalculation(current_turn)
}

/// The state a pathfinding behaviour moves to when it is not running:
/// a new one is requested, a requested one starts running, and a finished or
/// cancelled one starts over (its path dropped).
pub open spec fn pathfinding_state_advance(state: ActionState) -> ActionState {
    match state {
        ActionState::Init => ActionState::Requested,
        ActionState::Requested => ActionState::Executing,
        _ => ActionState::Init,
    }
}

/// What a running pathfinding chase does (`pf0` becoming `pf1`, the actor
/// `a0` becoming `a1`): a new path to the player is computed when one is
/// needed, failing when none is found; then the actor steps to the next cell
/// of the path (an orthogonal step), succeeding when that cell is the
/// player's, and fails when there is no next cell or no such step.
pub open spec fn enhanced_chase_outcome<W: Fn(Position) -> bool, A: Fn(Position) -> bool, P: Fn(Position, Position) -> Vec<Position>, Q: Fn(Position, Position) -> Vec<Position>>(
    pf0: AIPathfinding,
    pf1: AIPathfinding,
    a0: TurnActor,
    a1: TurnActor,
    ai_pos: Position,
    player_pos: Position,
    current_turn: u64,
    is_walkable: W,
    has_actor: A,
    find_path: P,
    find_nearest: Q,
    state: ActionState,
) -> bool {
    exists|needs: bool|
        #[trigger] path_renewal(pf0, ai_pos, player_pos, current_turn, is_walkable, has_actor, needs) && {
        let found = !needs || pf1.current_path@.len() > 0;
        &&& needs ==> path_calculated(
            pf0,
            pf1,
            ai_pos,
            player_pos,
            current_turn,
            find_path,
            find_nearest,
            found,
        )
        &&& !needs ==> pf1 == pf0
        &&& if !found {
            state == ActionState::Failure && a1 == a0
        } else {
            match next_step_of(pf1.current_path@, ai_pos) {
                None => state == ActionState::Failure && a1 == a0,
                Some(n) => match cardinal_of(sign(n.x - ai_pos.x), sign(n.y - ai_pos.y)) {
                    None => state == ActionState::Failure && a1 == a0,
                    Some(d) => queued_after(a0, a1, ActionType::MoveDelta(d)) && state == (if n
                        == player_pos {
                        ActionState::Success
                    } else {
                        ActionState::Executing
                    }),
                },
            }
        }
    }
}

/// One run of the pathfinding chase for one actor: a new chase is requested
/// and then starts running, recorded as the actor's current activity; a running one follows `enhanced_chase_outcome`;
/// a finished or cancelled one drops its path and starts over.
pub fn enhanced_chase_step<W: Fn(Position) -> bool, A: Fn(Position) -> bool, P: Fn(Position, Position) -> Vec<Position>, Q: Fn(Position, Position) -> Vec<Position>>(
    action_state: ActionState,
    pathfinding: &mut AIPathfinding,
    ai_state: &mut AIState,
    ai_actor: &mut TurnActor,
    ai_pos: Position,
    player_pos: Position,
    current_turn: u64,
    is_walkable: &W,
    has_actor: &A,
    find_path: &P,
    find_nearest: &Q,
) -> (state: ActionState)
    requires
        forall|p: Position| #[trigger] is_walkable.requires((p,)),
        forall|p: Position| #[trigger] has_actor.requires((p,)),
        forall|a: Position, b: Position| #[trigger] find_path.requires((a, b)),
        forall|a: Position, b: Position| #[trigger] find_nearest.requires((a, b)),
    ensures
        action_state == ActionState::Requested ==> final(ai_state).current_action == AIAction::ChasePlayer
            && final(ai_state).target_position == old(ai_state).target_position,
        action_state != ActionState::Requested ==> *final(ai_state) == *old(ai_state),
        action_state == ActionState::Executing ==> enhanced_chase_outcome(
            *old(pathfinding),
            *final(pathfinding),
            *old(ai_actor),
            *final(ai_actor),
            ai_pos,
            player_pos,
            current_turn,
            *is_walkable,
            *has_actor,
            *find_path,
            *find_nearest,
            state,
        ),
        action_state != ActionState::Executing ==> state == pathfinding_state_advance(action_state)
            && *final(ai_actor) == *old(ai_actor),
        action_state == ActionState::Init || action_state == ActionState::Requested
            ==> *final(pathfinding) == *old(pathfinding),
        action_state == ActionState::Success || action_state == ActionState::Failure
            || action_state == ActionState::Cancelled ==> final(pathfinding).current_path@.len() == 0
            && final(pathfinding).target_position is None && final(pathfinding).recalculate_threshold
            == old(pathfinding).recalculate_threshold && final(pathfinding).last_recalculation == old(
            pathfinding).last_recalculation,
{
    match action_state {
        ActionState::Init => ActionState::Requested,
        ActionState::Requested => {
            ai_state.current_action = AIAction::ChasePlayer;
            ActionState::Executing
        },
        ActionState::Executing => {
            let ghost pf0 = *pathfinding;
            let needs = needs_new_path(pathfinding, ai_pos, player_pos, current_turn, is_walkable, has_actor);
            let mut found = true;
            if needs {
                found = pathfinding.calculate_path(ai_pos, player_pos, current_turn, find_path, find_nearest);
            }
            let ghost pf1 = *pathfinding;
            if !found {
                assert(enhanced_chase_outcome(pf0, pf1, *old(ai_actor), *ai_actor, ai_pos, player_pos, current_turn, *is_walkable, *has_actor, *find_path, *find_nearest, ActionState::Failure));
                return ActionState::Failure;
            }
            let r = match pathfinding.get_next_step(ai_pos) {
                Some(next_pos) => match position_to_direction(ai_pos, next_pos) {
                    Some(direction) => {
                        queue_move_delta(ai_actor, direction);
                        if next_pos == player_pos {
                            ActionState::Success
                        } else {
                            ActionState::Executing
                        }
                    },
                    None => ActionState::Failure,
                },
                None => ActionState::Failure,
            };
            assert(enhanced_chase_outcome(pf0, pf1, *old(ai_actor), *ai_actor, ai_pos, player_pos, current_turn, *is_walkable, *has_actor, *find_path, *find_nearest, r));
            r
        },
        _ => {
            pathfinding.clear_path();
            ActionState::Init
        },
    }
}

/// What a running pathfinding flight does (`pf0` becoming `pf1`, the actor
/// `a0` becoming `a1`) with `flee_target`, the safe cell chosen for it (if
/// any), and `flee_direction`, the step straight away it would take instead
/// (if any). Without a target the actor takes that step and succeeds. With
/// one, a new path is computed when needed; when none is found the actor
/// takes that step and succeeds. Otherwise it steps to the next cell of the
/// path, succeeding once that cell is `safe`, and fails when there is no
/// next cell or no orthogonal step to it.
pub open spec fn enhanced_flee_outcome<W: Fn(Position) -> bool, A: Fn(Position) -> bool, P: Fn(Position, Position) -> Vec<Position>, Q: Fn(Position, Position) -> Vec<Position>, S: Fn(Position) -> bool>(
    pf0: AIPathfinding,
    pf1: AIPathfinding,
    a0: TurnActor,
    a1: TurnActor,
    ai_pos: Position,
    flee_target: Option<Position>,
    flee_direction: Option<Direction>,
    current_turn: u64,
    is_walkable: W,
    has_actor: A,
    find_path: P,
    find_nearest: Q,
    safe: S,
    state: ActionState,
) -> bool {
    let stepped_away = state == ActionState::Success && match flee_direction {
        Some(d) => queued_after(a0, a1, ActionType::MoveDelta(d)),
        None => a1 == a0,
    };
    match flee_target {
        None => pf1 == pf0 && stepped_away,
        Some(target) => exists|needs: bool|
            #[trigger] path_renewal(pf0, ai_pos, target, current_turn, is_walkable, has_actor, needs) && {
            let found = !needs || pf1.current_path@.len() > 0;
            &&& needs ==> path_calculated(
                pf0,
                pf1,
                ai_pos,
                target,
                current_turn,
                find_path,
                find_nearest,
                found,
            )
            &&& !needs ==> pf1 == pf0
            &&& if !found {
                stepped_away
            } else {
                match next_step_of(pf1.current_path@, ai_pos) {
                    None => state == ActionState::Failure && a1 == a0,
                    Some(n) => match cardinal_of(sign(n.x - ai_pos.x), sign(n.y - ai_pos.y)) {
                        None => state == ActionState::Failure && a1 == a0,
                        Some(d) => queued_after(a0, a1, ActionType::MoveDelta(d)) && exists|far: bool|
                            #[trigger] safe.ensures((n,), far) && state == (if far {
                                ActionState::Success
                            } else {
                                ActionState::Executing
                            }),
                    },
                }
            }
        },
    }
}

/// Takes the step straight away from the threat, if there is one, and
/// succeeds.
fn step_away(ai_actor: &mut TurnActor, flee_direction: Option<Direction>) -> (state: ActionState)
    ensures
        state == ActionState::Success,
        match flee_direction {
            Some(d) => queued_after(*old(ai_actor), *final(ai_actor), ActionType::MoveDelta(d)),
            None => *final(ai_actor) == *old(ai_actor),
        },
{
    if let Some(direction) = flee_direction {
        queue_move_delta(ai_actor, direction);
    }
    ActionState::Success
}

/// One run of the pathfinding flight for one actor: a new flight is
/// requested and then starts running, recorded as the actor's current
/// activity; a running one follows
/// `enhanced_flee_outcome`; a finished or cancelled one drops its path and
/// starts over. `flee_target` and `flee_direction` are the safe cell and the
/// step straight away chosen for it, `safe` tells whether a cell is far
/// enough from the threat.
pub fn enhanced_flee_step<W: Fn(Position) -> bool, A: Fn(Position) -> bool, P: Fn(Position, Position) -> Vec<Position>, Q: Fn(Position, Position) -> Vec<Position>, S: Fn(Position) -> bool>(
    action_state: ActionState,
    pathfinding: &mut AIPathfinding,
    ai_state: &mut AIState,
    ai_actor: &mut TurnActor,
    ai_pos: Position,
    flee_target: Option<Position>,
    flee_direction: Option<Direction>,
    current_turn: u64,
    is_walkable: &W,
    has_actor: &A,
    find_path: &P,
    find_nearest: &Q,
    safe: &S,
) -> (state: ActionState)
    requires
        forall|p: Position| #[trigger] is_walkable.requires((p,)),
        forall|p: Position| #[trigger] has_actor.requires((p,)),
        forall|a: Position, b: Position| #[trigger] find_path.requires((a, b)),
        forall|a: Position, b: Position| #[trigger] find_nearest.requires((a, b)),
        forall|p: Position| #[trigger] safe.requires((p,)),
    ensures
        action_state == ActionState::Requested ==> final(ai_state).current_action == AIAction::FleeFromPlayer
            && final(ai_state).target_position == old(ai_state).target_position,
        action_state != ActionState::Requested ==> *final(ai_state) == *old(ai_state),
        action_state == ActionState::Executing ==> enhanced_flee_outcome(
            *old(pathfinding),
            *final(pathfinding),
            *old(ai_actor),
            *final(ai_actor),
            ai_pos,
            flee_target,
            flee_direction,
            current_turn,
            *is_walkable,
            *has_actor,
            *find_path,
            *find_nearest,
            *safe,
            state,
        ),
        action_state != ActionState::Executing ==> state == pathfinding_state_advance(action_state)
            && *final(ai_actor) == *old(ai_actor),
        action_state == ActionState::Init || action_state == ActionState::Requested
            ==> *final(pathfinding) == *old(pathfinding),
        action_state == ActionState::Success || action_state == ActionState::Failure
            || action_state == ActionState::Cancelled ==> final(pathfinding).current_path@.len() == 0
            && final(pathfinding).target_position is None && final(pathfinding).recalculate_threshold
            == old(pathfinding).recalculate_threshold && final(pathfinding).last_recalculation == old(
            pathfinding).last_recalculation,
{
    match action_state {
        ActionState::Init => ActionState::Requested,
        ActionState::Requested => {
            ai_state.current_action = AIAction::FleeFromPlayer;
            ActionState::Executing
        },
        ActionState::Executing => {
            let ghost pf0 = *pathfinding;
            let target = match flee_target {
                Some(t) => t,
                None => {
                    return step_away(ai_actor, flee_direction);
                },
            };
            let needs = needs_new_path(pathfinding, ai_pos, target, current_turn, is_walkable, has_actor);
            let mut found = true;
            if needs {
                found = pathfinding.calculate_path(ai_pos, target, current_turn, find_path, find_nearest);
            }
            let ghost pf1 = *pathfinding;
            if !found {
                let r = step_away(ai_actor, flee_direction);
                assert(enhanced_flee_outcome(pf0, pf1, *old(ai_actor), *ai_actor, ai_pos, flee_target, flee_direction, current_turn, *is_walkable, *has_actor, *find_path, *find_nearest, *safe, r));
                return r;
            }
            let r = match pathfinding.get_next_step(ai_pos) {
                Some(next_pos) => match position_to_direction(ai_pos, next_pos) {
                    Some(direction) => {
                        queue_move_delta(ai_actor, direction);
                        let far = safe(next_pos);
                        if far {
                            ActionState::Success
                        } else {
                            ActionState::Executing
                        }
                    },
                    None => ActionState::Failure,
                },
                None => ActionState::Failure,
            };
            assert(enhanced_flee_outcome(pf0, pf1, *old(ai_actor), *ai_actor, ai_pos, flee_target, flee_direction, current_turn, *is_walkable, *has_actor, *find_path, *find_nearest, *safe, r));
            r
        },
        _ => {
            pathfinding.clear_path();
            ActionState::Init
        },
    }
}

/// An AI entity with path following: its cell, turn actor, behaviour,
/// current activity and path searches.
pub struct EnhancedAIBundle {
    pub position: Position,
    pub turn_actor: TurnActor,
    pub ai_behavior: AIBehavior,
    pub ai_state: AIState,
    pub ai_pathfinding: AIPathfinding,
}

impl EnhancedAIBundle {
    /// An entity at `position` with the behaviour of `behavior_type` and
    /// `detection_range`, a turn actor of `speed`, and searches with
    /// `algorithm` (at most 1000 steps, no diagonal steps).
    pub fn new(
        position: Position,
        behavior_type: AIBehaviorType,
        detection_range: u8,
        speed: u32,
        algorithm: PathfindingAlgorithm,
    ) -> (b: EnhancedAIBundle)
        ensures
            b.position == position,
            b.ai_behavior.behavior_type == behavior_type,
            b.ai_behavior.detection_range == detection_range,
            b.ai_behavior.last_player_seen_turn is None,
            b.ai_behavior.last_known_player_position is None,
            b.ai_behavior.turns_before_wander == (match behavior_type {
                AIBehaviorType::Hostile => 5000int,
                AIBehaviorType::Passive => 3000,
                AIBehaviorType::Neutral => 10000,
            }),
            b.turn_actor.speed == speed,
            b.turn_actor.alive,
            b.turn_actor.pending().len() == 0,
            b.ai_state == (AIState { current_action: AIAction::Idle, target_position: None }),
            b.ai_pathfinding.current_path@.len() == 0,
            b.ai_pathfinding.target_position is None,
            b.ai_pathfinding.algorithm == algorithm,
            b.ai_pathfinding.max_iterations == 1000,
            !b.ai_pathfinding.allow_diagonal,
            b.ai_pathfinding.recalculate_threshold == 5,
            b.ai_pathfinding.last_recalculation == 0,
    {
        let ai_behavior = match behavior_type {
            AIBehaviorType::Hostile => AIBehavior::hostile(detection_range),
            AIBehaviorType::Passive => AIBehavior::passive(detection_range),
            AIBehaviorType::Neutral => AIBehavior::neutral(detection_range),
        };
        let ai_pathfinding = AIPathfinding::new(algorithm).with_max_iterations(1000).with_diagonal(
            false,
        );
        EnhancedAIBundle {
            position,
            turn_actor: TurnActor::new(speed),
            ai_behavior,
            ai_state: AIState { current_action: AIAction::Idle, target_position: None },
            ai_pathfinding,
        }
    }

    /// A hostile entity searching with A*.
    pub fn hostile(position: Position, detection_range: u8, speed: u32) -> (b: EnhancedAIBundle)
        ensures
            b.position == position,
            b.ai_behavior.behavior_type == AIBehaviorType::Hostile,
            b.ai_behavior.detection_range == detection_range,
            b.turn_actor.speed == speed,
            b.ai_pathfinding.algorithm == PathfindingAlgorithm::AStar,
    {
        EnhancedAIBundle::new(position, AIBehaviorType::Hostile, detection_range, speed, PathfindingAlgorithm::AStar)
    }

    /// A passive entity searching with A*.
    pub fn passive(position: Position, detection_range: u8, speed: u32) -> (b: EnhancedAIBundle)
        ensures
            b.position == position,
            b.ai_behavior.behavior_type == AIBehaviorType::Passive,
            b.ai_behavior.detection_range == detection_range,
            b.turn_actor.speed == speed,
            b.ai_pathfinding.algorithm == PathfindingAlgorithm::AStar,
    {
        EnhancedAIBundle::new(position, AIBehaviorType::Passive, detection_range, speed, PathfindingAlgorithm::AStar)
    }

    /// A neutral entity searching with Dijkstra's algorithm, suited to
    /// wandering.
    pub fn neutral(position: Position, detection_range: u8, speed: u32) -> (b: EnhancedAIBundle)
        ensures
            b.position == position,
            b.ai_behavior.behavior_type == AIBehaviorType::Neutral,
            b.ai_behavior.detection_range == detection_range,
            b.turn_actor.speed == speed,
            b.ai_pathfinding.algorithm == PathfindingAlgorithm::Dijkstra,
    {
        EnhancedAIBundle::new(position, AIBehaviorType::Neutral, detection_range, speed, PathfindingAlgorithm::Dijkstra)
    }

    /// The same entity with new searches: `algorithm`, diagonal steps and
    /// step limit as given, no path.
    pub fn with_pathfinding_config(
        self,
        algorithm: PathfindingAlgorithm,
        allow_diagonal: bool,
        max_iterations: usize,
    ) -> (b: EnhancedAIBundle)
        ensures
            b.position == self.position,
            b.ai_behavior == self.ai_behavior,
            b.turn_actor == self.turn_actor,
            b.ai_state == self.ai_state,
            b.ai_pathfinding.algorithm == algorithm,
            b.ai_pathfinding.allow_diagonal == allow_diagonal,
            b.ai_pathfinding.max_iterations == max_iterations,
            b.ai_pathfinding.current_path@.len() == 0,
            b.ai_pathfinding.target_position is None,
            b.ai_pathfinding.recalculate_threshold == 5,
            b.ai_pathfinding.last_recalculation == 0,
    {
        let mut b = self;
        b.ai_pathfinding = AIPathfinding::new(algorithm).with_diagonal(allow_diagonal).with_max_iterations(
            max_iterations,
        );
        b
    }
}

} // verus!
