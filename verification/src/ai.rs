use vstd::prelude::*;

use crate::position::{
    calculate_direction_to_target, dist2, toward, Direction, Position,
};

verus! {

/// Temperament of an AI-controlled entity.
#[derive(Clone, Copy, Debug, PartialEq, Eq, Hash, Structural)]
pub enum AIBehaviorType {
    Hostile,
    Passive,
    Neutral,
}

/// Progress of a behaviour's action, as the utility-AI scheduler tracks it.
#[derive(Clone, Copy, Debug, PartialEq, Eq, Hash, Structural)]
pub enum ActionState {
    Init,
    Requested,
    Executing,
    Cancelled,
    Success,
    Failure,
}

/// What an AI entity is currently doing.
#[derive(Clone, Copy, Debug, PartialEq, Eq, Structural)]
pub enum AIAction {
    Idle,
    ChasePlayer,
    FleeFromPlayer,
    Wander,
}

/// An AI entity's current activity and target.
#[derive(Clone, Copy, Debug, PartialEq, Eq, Structural)]
pub struct AIState {
    pub current_action: AIAction,
    pub target_position: Option<Position>,
}

/// What an action system does for an actor after looking at its state.
#[derive(Clone, Copy, Debug, PartialEq, Eq, Structural)]
pub enum ActionStep {
    /// Nothing to do this time.
    Skip,
    /// Begin the action (first execution).
    Start,
    /// Continue the running action.
    Continue,
}

/// Knowledge and tuning of an AI-controlled entity.
#[derive(Clone, Copy, Debug)]
pub struct AIBehavior {
    pub detection_range: u8,
    pub behavior_type: AIBehaviorType,
    pub last_known_player_position: Option<Position>,
    /// Time at which the player was last seen.
    pub last_player_seen_turn: Option<u64>,
    /// Time to wait after the last sighting before giving up the chase.
    pub turns_before_wander: u64,
}

/// The product of `a` and `b`, saturated at `u64::MAX`.
pub open spec fn saturating_product(a: int, b: int) -> int {
    if a * b > u64::MAX {
        u64::MAX as int
    } else {
        a * b
    }
}

impl AIBehavior {
    /// Whether the entity should give up chasing at time `current_turn`:
    /// never having seen the player, or `turns_before_wander` having passed
    /// since the last sighting.
    pub open spec fn wander_due(&self, current_turn: u64) -> bool {
        match self.last_player_seen_turn {
            Some(last_seen) => (if current_turn >= last_seen {
                current_turn - last_seen
            } else {
                0
            }) >= self.turns_before_wander,
            None => true,
        }
    }

    /// A behaviour that has never seen the player; `turns_before_wander` is
    /// given in turns of 1000 time units each (saturating).
    pub fn new(behavior_type: AIBehaviorType, detection_range: u8, turns_before_wander: u64) -> (b:
        AIBehavior)
        ensures
            b.behavior_type == behavior_type,
            b.detection_range == detection_range,
            b.last_player_seen_turn is None,
            b.last_known_player_position is None,
            b.turns_before_wander == saturating_product(turns_before_wander as int, 1000),
    {
        let wait = if turns_before_wander > u64::MAX / 1000 {
            u64::MAX
        } else {
            turns_before_wander * 1000
        };
        AIBehavior {
            behavior_type,
            detection_range,
            last_player_seen_turn: None,
            last_known_player_position: None,
            turns_before_wander: wait,
        }
    }

    /// Hostile, giving up after 5 turns.
    pub fn hostile(detection_range: u8) -> (b: AIBehavior)
        ensures
            b.behavior_type == AIBehaviorType::Hostile,
            b.detection_range == detection_range,
            b.last_player_seen_turn is None,
            b.last_known_player_position is None,
            b.turns_before_wander == 5000,
    {
        AIBehavior::new(AIBehaviorType::Hostile, detection_range, 5)
    }

    /// Passive, giving up after 3 turns.
    pub fn passive(detection_range: u8) -> (b: AIBehavior)
        ensures
            b.behavior_type == AIBehaviorType::Passive,
            b.detection_range == detection_range,
            b.last_player_seen_turn is None,
            b.last_known_player_position is None,
            b.turns_before_wander == 3000,
    {
        AIBehavior::new(AIBehaviorType::Passive, detection_range, 3)
    }

    /// Neutral, giving up after 10 turns.
    pub fn neutral(detection_range: u8) -> (b: AIBehavior)
        ensures
            b.behavior_type == AIBehaviorType::Neutral,
            b.detection_range == detection_range,
            b.last_player_seen_turn is None,
            b.last_known_player_position is None,
            b.turns_before_wander == 10000,
    {
        AIBehavior::new(AIBehaviorType::Neutral, detection_range, 10)
    }

    /// Whether the entity should switch from chasing to wandering at
    /// `current_turn`.
    pub fn should_switch_to_wander(&self, current_turn: u64) -> (b: bool)
        ensures
            b == self.wander_due(current_turn),
    {
        match self.last_player_seen_turn {
            Some(last_seen) => {
                let elapsed = if current_turn >= last_seen {
                    current_turn - last_seen
                } else {
                    0
                };
                elapsed >= self.turns_before_wander
            },
            None => true,
        }
    }

    /// Records that the player was seen at `position` at time `turn`.
    pub fn update_player_sighting(&mut self, position: Position, turn: u64)
        ensures
            final(self).last_known_player_position == Some(position),
            final(self).last_player_seen_turn == Some(turn),
            final(self).behavior_type == old(self).behavior_type,
            final(self).detection_range == old(self).detection_range,
            final(self).turns_before_wander == old(self).turns_before_wander,
    {
        self.last_known_player_position = Some(position);
        self.last_player_seen_turn = Some(turn);
    }
}

impl Default for AIBehavior {
    /// Neutral, range 8, giving up after 5 time units, never having seen the
    /// player.
    fn default() -> (b: AIBehavior)
        ensures
            b.behavior_type == AIBehaviorType::Neutral,
            b.detection_range == 8,
            b.last_known_player_position is None,
            b.last_player_seen_turn is None,
            b.turns_before_wander == 5,
    {
        AIBehavior {
            behavior_type: AIBehaviorType::Neutral,
            detection_range: 8,
            last_known_player_position: None,
            last_player_seen_turn: None,
            turns_before_wander: 5,
        }
    }
}

/// Behaviour type with its tuning.
#[derive(Clone, Copy)]
pub struct AIComponent {
    pub ai_type: AIBehaviorType,
    pub ai_behavior: AIBehavior,
}

impl AIComponent {
    /// The given type with the default tuning.
    pub fn new(ai_type: AIBehaviorType) -> (c: AIComponent)
        ensures
            c.ai_type == ai_type,
            c.ai_behavior.behavior_type == AIBehaviorType::Neutral,
            c.ai_behavior.detection_range == 8,
            c.ai_behavior.turns_before_wander == 5,
            c.ai_behavior.last_player_seen_turn is None,
            c.ai_behavior.last_known_player_position is None,
    {
        AIComponent { ai_type, ai_behavior: AIBehavior::default() }
    }

    pub fn passive() -> (c: AIComponent)
        ensures
            c.ai_type == AIBehaviorType::Passive,
            c.ai_behavior.behavior_type == AIBehaviorType::Passive,
            c.ai_behavior.detection_range == 8,
            c.ai_behavior.turns_before_wander == 3000,
            c.ai_behavior.last_player_seen_turn is None,
            c.ai_behavior.last_known_player_position is None,
    {
        AIComponent { ai_type: AIBehaviorType::Passive, ai_behavior: AIBehavior::passive(8) }
    }

    pub fn hostile() -> (c: AIComponent)
        ensures
            c.ai_type == AIBehaviorType::Hostile,
            c.ai_behavior.behavior_type == AIBehaviorType::Hostile,
            c.ai_behavior.detection_range == 8,
            c.ai_behavior.turns_before_wander == 5000,
            c.ai_behavior.last_player_seen_turn is None,
            c.ai_behavior.last_known_player_position is None,
    {
        AIComponent { ai_type: AIBehaviorType::Hostile, ai_behavior: AIBehavior::hostile(8) }
    }

    pub fn neutral() -> (c: AIComponent)
        ensures
            c.ai_type == AIBehaviorType::Neutral,
            c.ai_behavior.behavior_type == AIBehaviorType::Neutral,
            c.ai_behavior.detection_range == 8,
            c.ai_behavior.turns_before_wander == 10000,
            c.ai_behavior.last_player_seen_turn is None,
            c.ai_behavior.last_known_player_position is None,
    {
        AIComponent { ai_type: AIBehaviorType::Neutral, ai_behavior: AIBehavior::neutral(8) }
    }
}

/// The common opening of every behaviour action system for one actor: an
/// actor that still has actions queued, or whose action finished, is skipped;
/// a cancelled action is marked failed; a new or requested action starts
/// executing; an executing action continues.
pub fn advance_action_state(state: ActionState, has_queued_action: bool) -> (r: (
    ActionState,
    ActionStep,
))
    ensures
        has_queued_action ==> r == (state, ActionStep::Skip),
        !has_queued_action ==> r == (match state {
            ActionState::Success => (ActionState::Success, ActionStep::Skip),
            ActionState::Failure => (ActionState::Failure, ActionStep::Skip),
            ActionState::Cancelled => (ActionState::Failure, ActionStep::Skip),
            ActionState::Init => (ActionState::Executing, ActionStep::Start),
            ActionState::Requested => (ActionState::Executing, ActionStep::Start),
            ActionState::Executing => (ActionState::Executing, ActionStep::Continue),
        }),
{
    if has_queued_action {
        return (state, ActionStep::Skip);
    }
    match state {
        ActionState::Success => (ActionState::Success, ActionStep::Skip),
        ActionState::Failure => (ActionState::Failure, ActionStep::Skip),
        ActionState::Cancelled => (ActionState::Failure, ActionStep::Skip),
        ActionState::Init => (ActionState::Executing, ActionStep::Start),
        ActionState::Requested => (ActionState::Executing, ActionStep::Start),
        ActionState::Executing => (ActionState::Executing, ActionStep::Continue),
    }
}

/// Index of the first occurrence of `p` in `path`, if any.
pub open spec fn first_occurrence(path: Seq<Position>, p: Position, i: int) -> bool {
    &&& 0 <= i < path.len()
    &&& path[i] == p
    &&& forall|j: int| 0 <= j < i ==> path[j] != p
}

/// Index of the first cell of `path` equal to `p`.
pub(crate) fn position_in_path(path: &Vec<Position>, p: Position) -> (r: Option<usize>)
    ensures
        r is None ==> forall|j: int| 0 <= j < path@.len() ==> path@[j] != p,
        r matches Some(i) ==> first_occurrence(path@, p, i as int),
{
    let n = path.len();
    let mut i: usize = 0;
    while i < n
        invariant
            n == path@.len(),
            i <= n,
            forall|j: int| 0 <= j < i ==> path@[j] != p,
        decreases n - i,
    {
        if path[i] == p {
            return Some(i);
        }
        i = i + 1;
    }
    None
}

/// Where following `path` resumes for an actor standing on `current` whose
/// stored index is `idx`: `idx` itself when it is past the end or names the
/// actor's cell, else the first index of the actor's cell in the path, and
/// `None` when the actor is not on the path at all.
pub open spec fn resume_index(path: Seq<Position>, idx: int, current: Position) -> Option<int> {
    if idx >= path.len() || path[idx] == current {
        Some(idx)
    } else if exists|i: int| first_occurrence(path, current, i) {
        Some(choose|i: int| first_occurrence(path, current, i))
    } else {
        None
    }
}

/// What following `path` from `current` with stored index `idx` gives:
/// direction `r` and new index `new_idx`. Following resumes at
/// `resume_index` (off the path: `None`, index unchanged); at the end of the
/// path `None` with the index on the resume point; otherwise the next cell is
/// tested with `is_walkable`: blocked gives `None` with the index on the
/// resume point, free moves the index onto it and gives the direction toward
/// it.
pub open spec fn follow_outcome<F: Fn(Position) -> bool>(
    path: Seq<Position>,
    idx: int,
    current: Position,
    is_walkable: F,
    r: Option<Direction>,
    new_idx: int,
) -> bool {
    match resume_index(path, idx, current) {
        None => r is None && new_idx == idx,
        Some(b) => if b + 1 >= path.len() {
            r is None && new_idx == b
        } else {
            (r is None && new_idx == b && is_walkable.ensures((path[b + 1],), false)) || (new_idx
                == b + 1 && is_walkable.ensures((path[b + 1],), true) && r == toward(
                current,
                path[b + 1],
            ))
        },
    }
}

/// Follows a stored path from `current`. Following resumes at
/// `resume_index` (`None` is returned, the index unchanged, when the actor is
/// off the path); the index is first moved there. At the end of the path
/// `None` is returned. Otherwise the next cell is tested with `is_walkable`:
/// a blocked cell gives `None`; a free one moves the index onto it and gives
/// the direction toward it (`None` if the actor already stands there).
pub fn follow_path<F: Fn(Position) -> bool>(
    path: &Vec<Position>,
    path_index: &mut usize,
    current: Position,
    is_walkable: &F,
) -> (r: Option<Direction>)
    requires
        forall|p: Position| #[trigger] is_walkable.requires((p,)),
        *old(path_index) < usize::MAX,
    ensures
        follow_outcome(path@, *old(path_index) as int, current, *is_walkable, r, *final(path_index) as int),
{
    if path.len() == 0 {
        return None;
    }
    let mut current_path_index = *path_index;
    if current_path_index < path.len() && path[current_path_index] != current {
        match position_in_path(path, current) {
            Some(found_index) => {
                assert(first_occurrence(path@, current, found_index as int));
                current_path_index = found_index;
                *path_index = found_index;
            },
            None => {
                return None;
            },
        }
    }
    let next_index = current_path_index + 1;
    if next_index < path.len() {
        let next_pos = path[next_index];
        if !is_walkable(next_pos) {
            return None;
        }
        let direction = calculate_direction_to_target(&current, &next_pos);
        *path_index = next_index;
        direction
    } else {
        None
    }
}

/// How a wandering actor picks its targets.
#[derive(Clone, Copy, Debug, PartialEq, Eq, Structural)]
pub enum WanderType {
    /// Random nearby cells.
    Random,
    /// Cells within a designated area.
    AreaWander,
    /// A cycle of patrol points.
    Patrol,
    /// Far-away cells, to explore.
    Explore,
}

impl Default for WanderType {
    fn default() -> (t: WanderType)
        ensures
            t == WanderType::Random,
    {
        WanderType::Random
    }
}

/// Area bounds for area-constrained wandering.
#[derive(Clone, Copy, Debug)]
pub struct WanderArea {
    pub center: Position,
    pub radius: u32,
}

/// State of an actor's wander behaviour.
#[derive(Clone, Debug)]
pub struct WanderAction {
    pub wander_type: WanderType,
    /// Path being followed (first cell: where the actor stood).
    pub current_path: Vec<Position>,
    /// Index of the actor's cell in the path.
    pub path_index: usize,
    pub current_target: Option<Position>,
    /// Where the actor stood when the path was made.
    pub ai_pos_when_path_generated: Option<Position>,
    pub patrol_points: Vec<Position>,
    pub current_patrol_index: usize,
    pub wander_area: Option<WanderArea>,
    /// Time at which the last target was chosen.
    pub last_target_time: Option<u64>,
}

impl Default for WanderAction {
    /// Random wandering with no path, target or patrol points.
    fn default() -> (w: WanderAction)
        ensures
            w.wander_type == WanderType::Random,
            w.current_path@.len() == 0,
            w.path_index == 0,
            w.current_target is None,
            w.ai_pos_when_path_generated is None,
            w.patrol_points@.len() == 0,
            w.current_patrol_index == 0,
            w.wander_area is None,
            w.last_target_time is None,
    {
        WanderAction {
            wander_type: WanderType::Random,
            current_path: Vec::new(),
            path_index: 0,
            current_target: None,
            ai_pos_when_path_generated: None,
            patrol_points: Vec::new(),
            current_patrol_index: 0,
            wander_area: None,
            last_target_time: None,
        }
    }
}

/// State of an actor's chase behaviour.
#[derive(Clone, Debug)]
pub struct ChasePlayerAction {
    /// Whether `current_path` holds a path made for the chase.
    pub generated_path: bool,
    pub last_seen_pt: Option<Position>,
    /// Path being followed (first cell: where the actor stood).
    pub current_path: Vec<Position>,
    pub path_index: usize,
    /// Where the player stood when the path was made.
    pub target_when_path_generated: Option<Position>,
    pub ai_pos_when_path_generated: Option<Position>,
}

impl Default for ChasePlayerAction {
    fn default() -> (c: ChasePlayerAction)
        ensures
            !c.generated_path,
            c.last_seen_pt is None,
            c.current_path@.len() == 0,
            c.path_index == 0,
            c.target_when_path_generated is None,
            c.ai_pos_when_path_generated is None,
    {
        ChasePlayerAction {
            generated_path: false,
            last_seen_pt: None,
            current_path: Vec::new(),
            path_index: 0,
            target_when_path_generated: None,
            ai_pos_when_path_generated: None,
        }
    }
}

/// State of an actor's flee behaviour.
#[derive(Clone, Debug)]
pub struct FleeFromPlayerAction {
    /// Escape path being followed (first cell: where the actor stood).
    pub escape_path: Vec<Position>,
    pub path_index: usize,
    pub escape_target: Option<Position>,
    /// Where the threat stood when the path was made.
    pub threat_pos_when_path_generated: Option<Position>,
    pub ai_pos_when_path_generated: Option<Position>,
}

impl Default for FleeFromPlayerAction {
    fn default() -> (f: FleeFromPlayerAction)
        ensures
            f.escape_path@.len() == 0,
            f.path_index == 0,
            f.escape_target is None,
            f.threat_pos_when_path_generated is None,
            f.ai_pos_when_path_generated is None,
    {
        FleeFromPlayerAction {
            escape_path: Vec::new(),
            path_index: 0,
            escape_target: None,
            threat_pos_when_path_generated: None,
            ai_pos_when_path_generated: None,
        }
    }
}

/// What the end-of-path test gives for a path followed from `idx`: when a
/// next cell exists the test answers whether it is blocked (as
/// `is_walkable` said), otherwise the path is exhausted.
pub open spec fn step_check<F: Fn(Position) -> bool>(
    path: Seq<Position>,
    idx: int,
    is_walkable: F,
    r: bool,
) -> bool {
    if idx + 1 < path.len() {
        (is_walkable.ensures((path[idx + 1],), true) && !r) || (is_walkable.ensures(
            (path[idx + 1],),
            false,
        ) && r)
    } else {
        r
    }
}

/// Whether the path needs replacing because its next cell is blocked or it
/// is exhausted.
fn next_step_unusable<F: Fn(Position) -> bool>(
    path: &Vec<Position>,
    path_index: usize,
    is_walkable: &F,
) -> (r: bool)
    requires
        path_index < usize::MAX,
        forall|p: Position| #[trigger] is_walkable.requires((p,)),
    ensures
        step_check(path@, path_index as int, *is_walkable, r),
{
    let next = path_index + 1;
    if next < path.len() {
        if !is_walkable(path[next]) {
            return true;
        }
    }
    let last = if path.len() == 0 {
        0
    } else {
        path.len() - 1
    };
    path_index >= last
}

/// The moved-far test: `old` is set and lies farther than `limit2` (squared
/// distance) from `now`.
pub open spec fn moved_beyond(old: Option<Position>, now: Position, limit2: int) -> bool {
    match old {
        Some(p) => dist2(p, now) > limit2,
        None => false,
    }
}

/// Whether a recorded position is farther than `limit2` (squared distance)
/// from `now`.
fn moved_far(old: Option<Position>, now: Position, limit2: i128) -> (r: bool)
    ensures
        r == moved_beyond(old, now, limit2 as int),
{
    match old {
        Some(p) => p.distance_squared(&now) > limit2,
        None => false,
    }
}

/// More than 75 turns (of 1000 time units) passed since the last target was
/// chosen.
pub open spec fn target_expired(last_target_time: Option<u64>, current_turn: u64) -> bool {
    match last_target_time {
        Some(t) => (if current_turn >= t {
            current_turn - t
        } else {
            0
        }) / 1000 > 75,
        None => false,
    }
}

/// The answer `r` of `should_regenerate_wander_path`: replace when the
/// target expired, there is no path or the actor moved more than 10 cells
/// since it was made; otherwise as the end-of-path test says.
pub open spec fn wander_regen_answer<F: Fn(Position) -> bool>(
    w: WanderAction,
    current_ai_pos: Position,
    is_walkable: F,
    current_turn: u64,
    r: bool,
) -> bool {
    if target_expired(w.last_target_time, current_turn) || w.current_path@.len() == 0
        || moved_beyond(w.ai_pos_when_path_generated, current_ai_pos, 100) {
        r
    } else {
        step_check(w.current_path@, w.path_index as int, is_walkable, r)
    }
}

/// The answer `r` of `should_regenerate_chase_path`: replace when no path
/// was made or it is empty, or the player moved more than 2 cells or the
/// actor more than 3 since; otherwise as the end-of-path test says.
pub open spec fn chase_regen_answer<F: Fn(Position) -> bool>(
    c: ChasePlayerAction,
    current_ai_pos: Position,
    current_player_pos: Position,
    is_walkable: F,
    r: bool,
) -> bool {
    if !c.generated_path || c.current_path@.len() == 0 || moved_beyond(
        c.target_when_path_generated,
        current_player_pos,
        4,
    ) || moved_beyond(c.ai_pos_when_path_generated, current_ai_pos, 9) {
        r
    } else {
        step_check(c.current_path@, c.path_index as int, is_walkable, r)
    }
}

/// The answer `r` of `should_regenerate_escape_path`: replace when there is
/// no path, or the threat moved more than 2 cells or the actor more than 3
/// since; otherwise as the end-of-path test says.
pub open spec fn escape_regen_answer<F: Fn(Position) -> bool>(
    f: FleeFromPlayerAction,
    current_ai_pos: Position,
    current_threat_pos: Position,
    is_walkable: F,
    r: bool,
) -> bool {
    if f.escape_path@.len() == 0 || moved_beyond(
        f.threat_pos_when_path_generated,
        current_threat_pos,
        4,
    ) || moved_beyond(f.ai_pos_when_path_generated, current_ai_pos, 9) {
        r
    } else {
        step_check(f.escape_path@, f.path_index as int, is_walkable, r)
    }
}

impl WanderAction {
    /// The path or target should be replaced: the target is older than 75
    /// turns, there is no path, the actor moved more than 10 cells from where
    /// the path was made, or the next step is blocked or the path exhausted.
    pub fn should_regenerate_wander_path<F: Fn(Position) -> bool>(
        &self,
        current_ai_pos: Position,
        is_walkable: &F,
        current_turn: u64,
    ) -> (r: bool)
        requires
            self.path_index < usize::MAX,
            forall|p: Position| #[trigger] is_walkable.requires((p,)),
        ensures
            wander_regen_answer(*self, current_ai_pos, *is_walkable, current_turn, r),
    {
        if let Some(last_target_time) = self.last_target_time {
            let time_units_since_target = current_turn.saturating_sub(last_target_time);
            if time_units_since_target / 1000 > 75 {
                return true;
            }
        }
        if self.current_path.len() == 0 {
            return true;
        }
        if moved_far(self.ai_pos_when_path_generated, current_ai_pos, 100) {
            return true;
        }
        next_step_unusable(&self.current_path, self.path_index, is_walkable)
    }
}

impl ChasePlayerAction {
    /// The chase path should be replaced: none was made, the player moved
    /// more than 2 cells or the actor more than 3 since it was made, or the
    /// next step is blocked or the path exhausted.
    pub fn should_regenerate_chase_path<F: Fn(Position) -> bool>(
        &self,
        current_ai_pos: Position,
        current_player_pos: Position,
        is_walkable: &F,
    ) -> (r: bool)
        requires
            self.path_index < usize::MAX,
            forall|p: Position| #[trigger] is_walkable.requires((p,)),
        ensures
            chase_regen_answer(*self, current_ai_pos, current_player_pos, *is_walkable, r),
    {
        if !self.generated_path || self.current_path.len() == 0 {
            return true;
        }
        if moved_far(self.target_when_path_generated, current_player_pos, 4) {
            return true;
        }
        if moved_far(self.ai_pos_when_path_generated, current_ai_pos, 9) {
            return true;
        }
        next_step_unusable(&self.current_path, self.path_index, is_walkable)
    }
}

impl FleeFromPlayerAction {
    /// The escape path should be replaced: there is none, the threat moved
    /// more than 2 cells or the actor more than 3 since it was made, or the
    /// next step is blocked or the path exhausted.
    pub fn should_regenerate_escape_path<F: Fn(Position) -> bool>(
        &self,
        current_ai_pos: Position,
        current_threat_pos: Position,
        is_walkable: &F,
    ) -> (r: bool)
        requires
            self.path_index < usize::MAX,
            forall|p: Position| #[trigger] is_walkable.requires((p,)),
        ensures
            escape_regen_answer(*self, current_ai_pos, current_threat_pos, *is_walkable, r),
    {
        if self.escape_path.len() == 0 {
            return true;
        }
        if moved_far(self.threat_pos_when_path_generated, current_threat_pos, 4) {
            return true;
        }
        if moved_far(self.ai_pos_when_path_generated, current_ai_pos, 9) {
            return true;
        }
        next_step_unusable(&self.escape_path, self.path_index, is_walkable)
    }
}

/// Once an entity should give up the chase, it stays so as time goes on
/// (until it sees the player again).
pub proof fn lemma_wander_due_persists(b: AIBehavior, earlier: u64, later: u64)
    requires
        earlier <= later,
        b.wander_due(earlier),
    ensures
        b.wander_due(later),
{
}

/// Right after a sighting at time `turn`, the entity goes on chasing unless
/// it gives up at once (a wait of zero).
pub proof fn lemma_fresh_sighting(b: AIBehavior, turn: u64)
    requires
        b.last_player_seen_turn == Some(turn),
    ensures
        b.wander_due(turn) == (b.turns_before_wander == 0),
{
}

} // verus!
