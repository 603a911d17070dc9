use echos_in_the_dark::action::ActionType;
use echos_in_the_dark::ai::{
    advance_action_state, follow_path, AIBehavior, AIBehaviorType, AIComponent, ActionState,
    ActionStep, ChasePlayerAction, FleeFromPlayerAction, WanderAction, WanderArea, WanderType,
};
use echos_in_the_dark::behavior::{
    attack_action_step, calculate_chase_score, calculate_wander_score, chase_action_step, chase_actor_step, continue_flee, continue_wander, ChaseActor,
    find_escape_destination, flee_action_step, idle_action_step, select_area_wander_target,
    select_exploration_target, select_random_wander_target, start_chase, start_flee,
    start_wander, try_attack_player, wander_action_step, find_alternative_direction,
    find_alternative_flee_direction, find_random_walkable_direction,
};
use echos_in_the_dark::position::{Direction, Position};
use echos_in_the_dark::turn_actor::TurnActor;

fn pos(x: i32, y: i32) -> Position {
    Position::new(x, y)
}

fn open_field(p: Position) -> bool {
    p.x.abs() <= 50 && p.y.abs() <= 50
}

fn no_path(_a: Position, _b: Position) -> Option<Vec<Position>> {
    None
}

fn straight_path(a: Position, b: Position) -> Option<Vec<Position>> {
    let mut path = vec![a];
    let mut cur = a;
    while cur != b {
        cur = pos(cur.x + (b.x - cur.x).signum(), cur.y + (b.y - cur.y).signum());
        path.push(cur);
    }
    Some(path)
}

fn last_queued(actor: &TurnActor) -> Option<ActionType> {
    actor.actions.back().copied()
}

#[test]
fn behavior_constructors() {
    let b = AIBehavior::new(AIBehaviorType::Hostile, 6, 4);
    assert_eq!(b.turns_before_wander, 4000);
    assert_eq!(AIBehavior::new(AIBehaviorType::Neutral, 1, u64::MAX).turns_before_wander, u64::MAX);
    assert_eq!(AIBehavior::hostile(5).turns_before_wander, 5000);
    assert_eq!(AIBehavior::passive(5).behavior_type, AIBehaviorType::Passive);
    assert_eq!(AIBehavior::neutral(5).turns_before_wander, 10000);
    let d = AIBehavior::default();
    assert_eq!((d.detection_range, d.turns_before_wander), (8, 5));
    assert_eq!(AIComponent::new(AIBehaviorType::Passive).ai_behavior.behavior_type, AIBehaviorType::Neutral);
    assert_eq!(AIComponent::hostile().ai_type, AIBehaviorType::Hostile);
    assert_eq!(AIComponent::passive().ai_behavior.turns_before_wander, 3000);
    assert_eq!(AIComponent::neutral().ai_behavior.detection_range, 8);
}

#[test]
fn switching_to_wander() {
    let mut b = AIBehavior::hostile(8);
    assert!(b.should_switch_to_wander(0));
    b.update_player_sighting(pos(3, 3), 10_000);
    assert_eq!(b.last_known_player_position, Some(pos(3, 3)));
    assert!(!b.should_switch_to_wander(10_000));
    assert!(!b.should_switch_to_wander(14_999));
    assert!(b.should_switch_to_wander(15_000));
    assert!(b.should_switch_to_wander(90_000));
    assert!(!b.should_switch_to_wander(5));
}

#[test]
fn action_state_table() {
    assert_eq!(advance_action_state(ActionState::Init, true), (ActionState::Init, ActionStep::Skip));
    assert_eq!(advance_action_state(ActionState::Init, false), (ActionState::Executing, ActionStep::Start));
    assert_eq!(advance_action_state(ActionState::Requested, false), (ActionState::Executing, ActionStep::Start));
    assert_eq!(advance_action_state(ActionState::Executing, false), (ActionState::Executing, ActionStep::Continue));
    assert_eq!(advance_action_state(ActionState::Cancelled, false), (ActionState::Failure, ActionStep::Skip));
    assert_eq!(advance_action_state(ActionState::Success, false), (ActionState::Success, ActionStep::Skip));
    assert_eq!(advance_action_state(ActionState::Failure, false), (ActionState::Failure, ActionStep::Skip));
}

#[test]
fn following_a_path() {
    let path = vec![pos(0, 0), pos(1, 0), pos(2, 1), pos(3, 1)];
    let mut idx = 0;
    assert_eq!(follow_path(&path, &mut idx, pos(0, 0), &open_field), Some(Direction::East));
    assert_eq!(idx, 1);
    assert_eq!(follow_path(&path, &mut idx, pos(1, 0), &open_field), Some(Direction::SouthEast));
    assert_eq!(idx, 2);
    // the actor is found further along the path than expected
    let mut idx = 0;
    assert_eq!(follow_path(&path, &mut idx, pos(2, 1), &open_field), Some(Direction::East));
    assert_eq!(idx, 3);
    // at the end of the path
    assert_eq!(follow_path(&path, &mut idx, pos(3, 1), &open_field), None);
    assert_eq!(idx, 3);
    // off the path
    let mut idx = 1;
    assert_eq!(follow_path(&path, &mut idx, pos(9, 9), &open_field), None);
    assert_eq!(idx, 1);
    // blocked next cell
    let mut idx = 0;
    assert_eq!(follow_path(&path, &mut idx, pos(0, 0), &|p: Position| p != pos(1, 0)), None);
    assert_eq!(idx, 0);
    // empty path
    let mut idx = 4;
    assert_eq!(follow_path(&vec![], &mut idx, pos(0, 0), &open_field), None);
    assert_eq!(idx, 4);
}

#[test]
fn wander_path_refresh() {
    let mut w = WanderAction::default();
    assert_eq!(w.wander_type, WanderType::Random);
    assert!(w.should_regenerate_wander_path(pos(0, 0), &open_field, 0));
    w.current_path = vec![pos(0, 0), pos(1, 0), pos(2, 0)];
    w.ai_pos_when_path_generated = Some(pos(0, 0));
    assert!(!w.should_regenerate_wander_path(pos(0, 0), &open_field, 0));
    assert!(w.should_regenerate_wander_path(pos(0, 0), &|p: Position| p != pos(1, 0), 0));
    assert!(w.should_regenerate_wander_path(pos(11, 0), &open_field, 0));
    assert!(!w.should_regenerate_wander_path(pos(10, 0), &open_field, 0));
    w.last_target_time = Some(1000);
    assert!(!w.should_regenerate_wander_path(pos(0, 0), &open_field, 76_999));
    assert!(w.should_regenerate_wander_path(pos(0, 0), &open_field, 77_000));
    w.path_index = 2;
    assert!(w.should_regenerate_wander_path(pos(2, 0), &open_field, 1000));
}

#[test]
fn chase_and_escape_path_refresh() {
    let mut c = ChasePlayerAction::default();
    assert!(c.should_regenerate_chase_path(pos(0, 0), pos(5, 0), &open_field));
    c.generated_path = true;
    c.current_path = vec![pos(0, 0), pos(1, 0), pos(2, 0)];
    c.target_when_path_generated = Some(pos(5, 0));
    c.ai_pos_when_path_generated = Some(pos(0, 0));
    assert!(!c.should_regenerate_chase_path(pos(0, 0), pos(7, 0), &open_field));
    assert!(c.should_regenerate_chase_path(pos(0, 0), pos(8, 0), &open_field));
    assert!(c.should_regenerate_chase_path(pos(4, 0), pos(5, 0), &open_field));

    let mut f = FleeFromPlayerAction::default();
    assert!(f.should_regenerate_escape_path(pos(0, 0), pos(5, 0), &open_field));
    f.escape_path = vec![pos(0, 0), pos(-1, 0)];
    f.threat_pos_when_path_generated = Some(pos(5, 0));
    assert!(!f.should_regenerate_escape_path(pos(0, 0), pos(6, 1), &open_field));
    assert!(f.should_regenerate_escape_path(pos(0, 0), pos(6, 2), &open_field));
    f.path_index = 1;
    assert!(f.should_regenerate_escape_path(pos(-1, 0), pos(5, 0), &open_field));
}

#[test]
fn patrolling_cycles_through_points() {
    let mut w = WanderAction::default();
    assert_eq!(w.select_patrol_target(pos(0, 0)), None);
    w.patrol_points = vec![pos(1, 1), pos(5, 5), pos(9, 1)];
    assert_eq!(w.select_patrol_target(pos(0, 0)), Some(pos(1, 1)));
    assert_eq!(w.select_patrol_target(pos(1, 1)), Some(pos(5, 5)));
    assert_eq!(w.current_patrol_index, 1);
    assert_eq!(w.select_patrol_target(pos(5, 5)), Some(pos(9, 1)));
    assert_eq!(w.select_patrol_target(pos(9, 1)), Some(pos(1, 1)));
    w.current_patrol_index = 7;
    assert_eq!(w.select_patrol_target(pos(0, 0)), None);
}

#[test]
fn wander_targets_are_walkable_and_near() {
    let mut rng = rand::rng();
    let walkable = |p: Position| (p.x + p.y) % 2 == 0;
    for _ in 0..50 {
        if let Some(t) = select_random_wander_target(pos(10, 10), &walkable, &mut rng) {
            assert!(walkable(t) && t != pos(10, 10));
            assert!((t.x - 10).abs() <= 5 && (t.y - 10).abs() <= 5);
        }
        if let Some(t) = select_exploration_target(pos(10, 10), &walkable, &mut rng) {
            assert!(walkable(t) && t != pos(10, 10));
            assert!((t.x - 10).abs() <= 8 && (t.y - 10).abs() <= 8);
        }
    }
    assert_eq!(select_random_wander_target(pos(0, 0), &|_p: Position| false, &mut rng), None);
}

#[test]
fn area_targets() {
    let mut rng = rand::rng();
    let area = Some(WanderArea { center: pos(20, 20), radius: 4 });
    let samples = vec![(22, 21), (18, 19)];
    assert_eq!(select_area_wander_target(&None, pos(0, 0), &samples, &open_field, &mut rng), None);
    assert_eq!(
        select_area_wander_target(&area, pos(0, 0), &samples, &open_field, &mut rng),
        Some(pos(22, 21))
    );
    let only = |p: Position| p == pos(20, 20);
    assert_eq!(
        select_area_wander_target(&area, pos(0, 0), &samples, &only, &mut rng),
        Some(pos(20, 20))
    );
}

#[test]
fn selecting_a_wander_target_records_the_time() {
    let mut rng = rand::rng();
    let mut w = WanderAction::default();
    w.wander_type = WanderType::Patrol;
    w.patrol_points = vec![pos(3, 3)];
    let t = w.select_wander_target(pos(0, 0), &open_field, 4242, &mut rng, &vec![]);
    assert_eq!(t, Some(pos(3, 3)));
    assert_eq!(w.last_target_time, Some(4242));
    w.patrol_points.clear();
    let t = w.select_wander_target(pos(0, 0), &open_field, 5000, &mut rng, &vec![]);
    assert_eq!(t, None);
    assert_eq!(w.last_target_time, Some(4242));
}

#[test]
fn starting_to_wander() {
    let mut w = WanderAction::default();
    let mut actor = TurnActor::new(100);
    assert_eq!(start_wander(&mut w, &mut actor, pos(0, 0), None, None), ActionState::Failure);
    assert!(!actor.has_action());

    let path = vec![pos(0, 0), pos(0, 1), pos(0, 2)];
    assert_eq!(
        start_wander(&mut w, &mut actor, pos(0, 0), Some(pos(0, 2)), Some(path.clone())),
        ActionState::Executing
    );
    assert_eq!(w.current_path, path);
    assert_eq!(w.path_index, 1);
    assert_eq!(w.current_target, Some(pos(0, 2)));
    assert_eq!(last_queued(&actor), Some(ActionType::MoveDelta(Direction::South)));

    let mut w = WanderAction::default();
    let mut actor = TurnActor::new(100);
    assert_eq!(
        start_wander(&mut w, &mut actor, pos(0, 0), Some(pos(0, 0)), Some(vec![pos(0, 0)])),
        ActionState::Success
    );
    assert_eq!(
        start_wander(&mut w, &mut actor, pos(0, 0), Some(pos(-3, 0)), None),
        ActionState::Executing
    );
    assert!(w.current_path.is_empty());
    assert_eq!(last_queued(&actor), Some(ActionType::MoveDelta(Direction::West)));
}

#[test]
fn continuing_to_wander() {
    let mut w = WanderAction::default();
    let mut actor = TurnActor::new(100);
    assert_eq!(continue_wander(&mut w, &mut actor, pos(4, 4), &open_field), ActionState::Success);
    w.current_target = Some(pos(4, 6));
    assert_eq!(continue_wander(&mut w, &mut actor, pos(4, 4), &open_field), ActionState::Executing);
    assert_eq!(last_queued(&actor), Some(ActionType::MoveDelta(Direction::South)));
    w.current_path = vec![pos(4, 4), pos(5, 5), pos(4, 6)];
    w.path_index = 0;
    assert_eq!(continue_wander(&mut w, &mut actor, pos(4, 4), &open_field), ActionState::Executing);
    assert_eq!(last_queued(&actor), Some(ActionType::MoveDelta(Direction::SouthEast)));
    assert_eq!(w.path_index, 1);
    assert_eq!(
        continue_wander(&mut w, &mut actor, pos(5, 5), &|p: Position| p != pos(4, 6)),
        ActionState::Failure
    );
}

#[test]
fn wander_step_runs_the_state_machine() {
    let mut rng = rand::rng();
    let mut w = WanderAction::default();
    let mut actor = TurnActor::new(100);
    let state = wander_action_step(
        ActionState::Init,
        &mut w,
        &mut actor,
        pos(10, 10),
        7,
        &mut rng,
        &open_field,
        &straight_path,
        &vec![],
    );
    assert_eq!(state, ActionState::Executing);
    assert!(actor.has_action());
    assert_eq!(w.last_target_time, Some(7));
    // an actor with an action queued is left alone
    let same = wander_action_step(state, &mut w, &mut actor, pos(10, 10), 8, &mut rng, &open_field, &straight_path, &vec![]);
    assert_eq!(same, ActionState::Executing);
    assert_eq!(actor.queued_action_count(), 1);
    let mut idle = TurnActor::new(100);
    assert_eq!(
        wander_action_step(ActionState::Cancelled, &mut w, &mut idle, pos(10, 10), 8, &mut rng, &open_field, &no_path, &vec![]),
        ActionState::Failure
    );
    assert_eq!(
        wander_action_step(ActionState::Success, &mut w, &mut idle, pos(10, 10), 8, &mut rng, &open_field, &no_path, &vec![]),
        ActionState::Success
    );
    assert!(!idle.has_action());
}

#[test]
fn chasing_the_player() {
    let mut c = ChasePlayerAction::default();
    let mut actor = TurnActor::new(100);
    let path = straight_path(pos(0, 0), pos(3, 3));
    assert_eq!(start_chase(&mut c, &mut actor, pos(0, 0), pos(3, 3), path), ActionState::Executing);
    assert!(c.generated_path);
    assert_eq!(c.path_index, 1);
    assert_eq!(c.last_seen_pt, Some(pos(3, 3)));
    assert_eq!(last_queued(&actor), Some(ActionType::MoveDelta(Direction::SouthEast)));

    let mut c = ChasePlayerAction::default();
    let mut actor = TurnActor::new(100);
    assert_eq!(start_chase(&mut c, &mut actor, pos(0, 0), pos(-2, 0), None), ActionState::Executing);
    assert!(!c.generated_path);
    assert_eq!(last_queued(&actor), Some(ActionType::MoveDelta(Direction::West)));
    assert_eq!(start_chase(&mut c, &mut TurnActor::new(100), pos(0, 0), pos(0, 0), None), ActionState::Failure);

    // player out of sight: chase the last seen point, fail once there
    let mut c = ChasePlayerAction::default();
    c.last_seen_pt = Some(pos(2, 0));
    assert_eq!(c.determine_chase_target(pos(0, 0), pos(9, 9), false, &no_path), Some(pos(2, 0)));
    assert_eq!(c.determine_chase_target(pos(2, 0), pos(9, 9), false, &no_path), None);
    assert_eq!(c.determine_chase_target(pos(0, 0), pos(9, 9), true, &straight_path), Some(pos(9, 9)));
    assert!(c.generated_path);
    assert_eq!(c.target_when_path_generated, Some(pos(9, 9)));
}

#[test]
fn chase_step() {
    let mut c = ChasePlayerAction::default();
    let mut actor = TurnActor::new(100);
    let s = chase_action_step(ActionState::Requested, &mut c, &mut actor, pos(0, 0), pos(0, 5), true, &open_field, &straight_path);
    assert_eq!(s, ActionState::Executing);
    assert_eq!(actor.next_action(), Some(ActionType::MoveDelta(Direction::South)));
    let s = chase_action_step(s, &mut c, &mut actor, pos(0, 1), pos(0, 5), true, &open_field, &straight_path);
    assert_eq!(s, ActionState::Executing);
    assert_eq!(actor.next_action(), Some(ActionType::MoveDelta(Direction::South)));
    let s = chase_action_step(s, &mut c, &mut actor, pos(3, 3), pos(0, 5), false, &open_field, &no_path);
    assert_eq!(s, ActionState::Executing);
    // without a path the player's cell becomes the last seen point; standing on it ends the chase
    let mut lost = ChasePlayerAction::default();
    let s = chase_action_step(ActionState::Executing, &mut lost, &mut TurnActor::new(100), pos(0, 5), pos(0, 5), false, &open_field, &no_path);
    assert_eq!(s, ActionState::Failure);
    assert_eq!(lost.last_seen_pt, Some(pos(0, 5)));
}

#[test]
fn escape_destinations() {
    let points = vec![(8, 0), (9, 0)];
    assert_eq!(find_escape_destination(pos(0, 0), pos(-3, 0), &points, &open_field), Some(pos(8, 0)));
    let near_only = |p: Position| p.x.abs() <= 1 && p.y.abs() <= 1;
    assert_eq!(find_escape_destination(pos(0, 0), pos(-3, 0), &points, &near_only), Some(pos(0, -1)));
    assert_eq!(find_escape_destination(pos(0, 0), pos(-3, 0), &points, &|_p: Position| false), None);
}

#[test]
fn fleeing() {
    let mut f = FleeFromPlayerAction::default();
    let mut actor = TurnActor::new(100);
    assert_eq!(start_flee(&mut f, &mut actor, pos(0, 0), pos(2, 0), None, None), ActionState::Failure);
    assert_eq!(start_flee(&mut f, &mut actor, pos(0, 0), pos(2, 0), Some(pos(-8, 0)), None), ActionState::Executing);
    assert_eq!(last_queued(&actor), Some(ActionType::MoveDelta(Direction::West)));
    assert!(f.escape_path.is_empty());
    let path = straight_path(pos(0, 0), pos(-8, 2));
    assert_eq!(
        start_flee(&mut f, &mut actor, pos(0, 0), pos(2, 0), Some(pos(-8, 2)), path),
        ActionState::Executing
    );
    assert_eq!(f.escape_target, Some(pos(-8, 2)));
    assert_eq!(f.threat_pos_when_path_generated, Some(pos(2, 0)));
    assert_eq!(last_queued(&actor), Some(ActionType::MoveDelta(Direction::SouthWest)));
    assert_eq!(continue_flee(&mut f, &mut actor, pos(-1, 1), pos(2, 0), &open_field), ActionState::Executing);
    assert_eq!(f.path_index, 2);
    let mut bare = FleeFromPlayerAction::default();
    assert_eq!(continue_flee(&mut bare, &mut actor, pos(0, 0), pos(0, 0), &open_field), ActionState::Executing);
    assert_eq!(last_queued(&actor), Some(ActionType::MoveDelta(Direction::North)));
}

#[test]
fn flee_step() {
    let mut f = FleeFromPlayerAction::default();
    let mut actor = TurnActor::new(100);
    let points = vec![(-8, 0)];
    let s = flee_action_step(ActionState::Init, &mut f, &mut actor, pos(0, 0), pos(3, 0), &open_field, &straight_path, &points);
    assert_eq!(s, ActionState::Executing);
    assert_eq!(f.escape_target, Some(pos(-8, 0)));
    assert_eq!(actor.next_action(), Some(ActionType::MoveDelta(Direction::West)));
    let s = flee_action_step(s, &mut f, &mut actor, pos(-1, 0), pos(3, 0), &open_field, &straight_path, &points);
    assert_eq!(s, ActionState::Executing);
    assert_eq!(actor.next_action(), Some(ActionType::MoveDelta(Direction::West)));
}

#[test]
fn attacking() {
    let tactical = |a: Position, b: Position| {
        if a == b {
            None
        } else {
            Some(Direction::from_coord((b.x - a.x).signum(), (b.y - a.y).signum()))
        }
    };
    let mut actor = TurnActor::new(100);
    assert!(try_attack_player(&mut actor, pos(0, 0), pos(1, 0), &tactical));
    assert_eq!(last_queued(&actor), Some(ActionType::MoveDelta(Direction::East)));
    let mut actor = TurnActor::new(100);
    assert!(!try_attack_player(&mut actor, pos(0, 0), pos(2, 0), &tactical));
    assert!(!actor.has_action());

    let mut actor = TurnActor::new(100);
    assert_eq!(attack_action_step(ActionState::Init, &mut actor, pos(0, 0), pos(0, 1), &tactical), ActionState::Success);
    let mut actor = TurnActor::new(100);
    assert_eq!(attack_action_step(ActionState::Executing, &mut actor, pos(0, 0), pos(3, 3), &tactical), ActionState::Failure);
    assert_eq!(last_queued(&actor), Some(ActionType::MoveDelta(Direction::SouthEast)));
    assert_eq!(attack_action_step(ActionState::Executing, &mut actor, pos(0, 0), pos(3, 3), &tactical), ActionState::Executing);
    let mut actor = TurnActor::new(100);
    assert_eq!(attack_action_step(ActionState::Cancelled, &mut actor, pos(0, 0), pos(3, 3), &tactical), ActionState::Failure);
    assert!(!actor.has_action());
}

#[test]
fn idling() {
    let mut actor = TurnActor::new(100);
    assert_eq!(idle_action_step(ActionState::Init, &mut actor), ActionState::Requested);
    assert_eq!(idle_action_step(ActionState::Requested, &mut actor), ActionState::Executing);
    assert_eq!(actor.peek_next_action(), Some(ActionType::Wait));
    assert_eq!(idle_action_step(ActionState::Requested, &mut actor), ActionState::Executing);
    assert_eq!(actor.queued_action_count(), 1);
    assert_eq!(idle_action_step(ActionState::Executing, &mut actor), ActionState::Executing);
    actor.next_action();
    assert_eq!(idle_action_step(ActionState::Executing, &mut actor), ActionState::Success);
    assert_eq!(idle_action_step(ActionState::Success, &mut actor), ActionState::Init);
    assert_eq!(idle_action_step(ActionState::Cancelled, &mut actor), ActionState::Init);
}

#[test]
fn chase_scores() {
    let mut neutral = AIBehavior::neutral(8);
    assert_eq!(calculate_chase_score(&mut neutral, true, true, pos(1, 1), 10), 0);
    assert_eq!(neutral.last_player_seen_turn, None);
    let mut hostile = AIBehavior::hostile(8);
    assert_eq!(calculate_chase_score(&mut hostile, true, false, pos(1, 1), 10), 0);
    assert_eq!(calculate_chase_score(&mut hostile, false, false, pos(1, 1), 10), 0);
    assert_eq!(calculate_chase_score(&mut hostile, true, true, pos(1, 1), 10), 100);
    assert_eq!(hostile.last_known_player_position, Some(pos(1, 1)));
    assert_eq!(calculate_chase_score(&mut hostile, false, false, pos(9, 9), 4000), 100);
    assert_eq!(calculate_chase_score(&mut hostile, false, false, pos(9, 9), 5010), 0);
}

#[test]
fn wander_scores() {
    let mut neutral = AIBehavior::neutral(8);
    assert_eq!(calculate_wander_score(&mut neutral, false, pos(0, 0), 0), 60);
    assert_eq!(calculate_wander_score(&mut neutral, true, pos(2, 2), 100), 4);
    assert_eq!(neutral.last_player_seen_turn, Some(100));
    assert_eq!(calculate_wander_score(&mut neutral, false, pos(0, 0), 200), 40);
    let mut hostile = AIBehavior::hostile(8);
    assert_eq!(calculate_wander_score(&mut hostile, true, pos(2, 2), 0), 2);
    let mut passive = AIBehavior::passive(8);
    assert_eq!(calculate_wander_score(&mut passive, false, pos(0, 0), 0), 45);
}

#[test]
fn simple_chase_steers_by_the_preferred_action() {
    let no_path = |_a: Position, _b: Position| -> Option<Vec<Position>> { None };
    let mut chase = ChaseActor::new();
    let mut preferred: Option<ActionType> = None;
    let s = chase_actor_step(ActionState::Init, &mut chase, &mut preferred, pos(0, 0), pos(5, 0), false, true, &no_path);
    assert_eq!(s, ActionState::Executing);
    assert_eq!(preferred, Some(ActionType::Move(pos(5, 0))));
    assert_eq!(chase.last_seen_pt, Some(pos(5, 0)));
    let s = chase_actor_step(ActionState::Executing, &mut chase, &mut preferred, pos(0, 0), pos(6, 0), false, true, &no_path);
    assert_eq!(s, ActionState::Executing);
    assert_eq!(preferred, Some(ActionType::Move(pos(5, 0))));
    preferred = None;
    let s = chase_actor_step(ActionState::Executing, &mut chase, &mut preferred, pos(0, 0), pos(6, 0), false, false, &no_path);
    assert_eq!(s, ActionState::Failure);
    let path = |a: Position, _b: Position| -> Option<Vec<Position>> { Some(vec![pos(a.x + 1, a.y)]) };
    let s = chase_actor_step(ActionState::Executing, &mut chase, &mut preferred, pos(0, 0), pos(6, 0), false, false, &path);
    assert_eq!(s, ActionState::Executing);
    assert_eq!(preferred, Some(ActionType::Move(pos(1, 0))));
    assert!(chase.generated_path);
    preferred = None;
    let s = chase_actor_step(ActionState::Executing, &mut chase, &mut preferred, pos(4, 0), pos(5, 0), true, true, &no_path);
    assert_eq!(s, ActionState::Success);
    let s = chase_actor_step(ActionState::Cancelled, &mut chase, &mut preferred, pos(4, 0), pos(5, 0), true, true, &no_path);
    assert_eq!(s, ActionState::Failure);
    assert_eq!(preferred, None);
}

#[test]
fn side_steps_pick_the_nearest_or_farthest_walkable_cell() {
    let open = |_p: Position| true;
    let closed = |_p: Position| false;
    let only_east = |p: Position| p == pos(1, 0);
    assert_eq!(find_alternative_direction(pos(0, 0), pos(5, 0), &open), Some(Direction::East));
    assert_eq!(find_alternative_direction(pos(0, 0), pos(0, 5), &open), Some(Direction::South));
    assert_eq!(find_alternative_direction(pos(0, 0), pos(0, 0), &open), Some(Direction::North));
    assert_eq!(find_alternative_direction(pos(0, 0), pos(5, 0), &closed), None);
    assert_eq!(find_alternative_flee_direction(pos(0, 0), pos(5, 0), &open), Some(Direction::West));
    assert_eq!(find_alternative_flee_direction(pos(0, 0), pos(1, 0), &only_east), None);
    assert_eq!(find_random_walkable_direction(pos(0, 0), &only_east), Some(Direction::East));
    assert_eq!(find_random_walkable_direction(pos(0, 0), &closed), None);
}
