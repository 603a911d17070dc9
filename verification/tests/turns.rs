use echos_in_the_dark::action::{ActionCategory, ActionType, GameError};
use echos_in_the_dark::position::{Direction, Position};
use echos_in_the_dark::spawning::EntitySpawnConfig;
use echos_in_the_dark::turn_actor::TurnActor;
use echos_in_the_dark::turn_manager::{TurnManager, TURN_TIME};

fn pos(x: i32, y: i32) -> Position {
    Position::new(x, y)
}

#[test]
fn test_turn_actor_creation() {
    let actor = TurnActor::new(100);
    assert_eq!(actor.speed(), 100);
    assert!(actor.is_alive());
    assert!(!actor.has_action());
}

#[test]
fn test_action_priority() {
    let mut actor = TurnActor::new(100);

    let result = actor.queue_action(ActionType::MoveDelta(Direction::North));
    assert!(result.is_ok());

    actor.set_preferred_action(ActionType::Wait);
    actor.force_action(ActionType::Attack(pos(1, 1)));

    // Forced action should come first
    assert_eq!(actor.peek_next_action_category(), Some(ActionCategory::Attack));
}

#[test]
fn test_queue_limits() {
    let mut actor = TurnActor::with_queue_limit(100, 2);

    let action1 = ActionType::MoveDelta(Direction::East);
    let action2 = ActionType::Attack(pos(2, 3));
    let action3 = ActionType::Wait;

    assert!(actor.queue_action(action1).is_ok());
    assert!(actor.queue_action(action2).is_ok());
    assert!(actor.queue_action(action3).is_err());
}

#[test]
fn test_turn_manager_creation() {
    let tm = TurnManager::new();
    assert_eq!(tm.current_turn(), 0);
    assert_eq!(tm.current_time(), 0);
    assert!(tm.is_empty());
}

#[test]
fn test_time_calculation() {
    let tm = TurnManager::new();

    let (turn, time) = tm.calculate_next_turn_time(50);
    assert_eq!(turn, 0);
    assert_eq!(time, 50);

    let (turn, time) = tm.calculate_next_turn_time(150);
    assert_eq!(turn, 1);
    assert_eq!(time, 50);

    let (turn, time) = tm.calculate_next_turn_time(250);
    assert_eq!(turn, 2);
    assert_eq!(time, 50);
}

#[test]
fn test_time_until() {
    let tm = TurnManager::new();

    assert_eq!(tm.time_until(0, 50), 50);
    assert_eq!(tm.time_until(1, 0), TURN_TIME);
    assert_eq!(tm.time_until(1, 50), TURN_TIME + 50);
    assert_eq!(tm.time_until(0, 0), 0);
}

#[test]
fn test_queue_operations() {
    let mut tm = TurnManager::new();
    let entity1: u64 = 1;
    let entity2: u64 = 2;

    assert!(tm.add_entity(entity1).is_ok());
    assert!(tm.add_entity(entity2).is_ok());
    assert_eq!(tm.total_action_count(), 2);

    assert!(tm.remove_entity(entity1));
    assert_eq!(tm.total_action_count(), 1);

    assert!(!tm.remove_entity(entity1));
    assert_eq!(tm.total_action_count(), 1);
}

#[test]
fn test_queue_validation() {
    let tm = TurnManager::new();
    let result = tm.validate_queue_integrity();
    assert!(result.is_valid);
    assert!(result.issues.is_empty());
}

#[test]
fn actions_are_taken_forced_then_queued_then_preferred() {
    let mut actor = TurnActor::new(100);
    actor.set_preferred_action(ActionType::Wait);
    assert!(actor.queue_action(ActionType::MoveDelta(Direction::South)).is_ok());
    actor.force_action(ActionType::Attack(pos(0, 1)));
    assert_eq!(actor.next_action(), Some(ActionType::Attack(pos(0, 1))));
    assert_eq!(actor.next_action(), Some(ActionType::MoveDelta(Direction::South)));
    assert_eq!(actor.next_action(), Some(ActionType::Wait));
    assert_eq!(actor.next_action(), None);
    assert!(!actor.has_action());
}

#[test]
fn priority_queueing_goes_to_the_front() {
    let mut actor = TurnActor::new(100);
    assert!(actor.queue_action(ActionType::Wait).is_ok());
    assert!(actor.queue_action_priority(ActionType::MoveDelta(Direction::West)).is_ok());
    assert_eq!(actor.peek_next_action(), Some(ActionType::MoveDelta(Direction::West)));
    let mut full = TurnActor::with_queue_limit(100, 0);
    assert_eq!(full.queue_action_priority(ActionType::Wait), Err(ActionType::Wait));
    full.force_queue_action(ActionType::Wait);
    assert_eq!(full.queued_action_count(), 1);
}

#[test]
fn clearing_by_category_keeps_the_others_in_order() {
    let mut actor = TurnActor::new(100);
    assert!(actor.queue_action(ActionType::MoveDelta(Direction::North)).is_ok());
    assert!(actor.queue_action(ActionType::Wait).is_ok());
    assert!(actor.queue_action(ActionType::Move(pos(4, 4))).is_ok());
    actor.force_action(ActionType::MoveDelta(Direction::East));
    actor.set_preferred_action(ActionType::Attack(pos(1, 0)));
    assert_eq!(actor.count_actions_by_category(ActionCategory::Movement), 3);
    actor.clear_actions_by_category(ActionCategory::Movement);
    assert_eq!(actor.count_actions_by_category(ActionCategory::Movement), 0);
    assert_eq!(actor.queued_action_count(), 1);
    assert!(!actor.has_forced_action());
    assert_eq!(actor.get_preferred_action(), Some(ActionType::Attack(pos(1, 0))));
    actor.clear_actions_by_category(ActionCategory::Attack);
    assert_eq!(actor.get_preferred_action(), None);
    assert!(actor.next_action_is_category(ActionCategory::Wait));
}

#[test]
fn clearing_queued_and_all_actions() {
    let mut actor = TurnActor::new(100);
    assert!(actor.queue_action(ActionType::Wait).is_ok());
    actor.force_action(ActionType::Wait);
    actor.set_preferred_action(ActionType::Wait);
    actor.clear_queued_actions();
    assert_eq!(actor.total_action_count(), 1);
    assert!(actor.has_forced_action());
    actor.clear_all_actions();
    assert_eq!(actor.total_action_count(), 0);
}

#[test]
fn action_time_formula() {
    let normal = TurnActor::new(100);
    assert_eq!(normal.calculate_action_time(100), 100);
    assert_eq!(normal.calculate_action_time(0), 1);
    let fast = TurnActor::new(200);
    assert_eq!(fast.calculate_action_time(100), 50);
    let slow = TurnActor::new(50);
    assert_eq!(slow.calculate_action_time(100), 200);
    let mut hasted = TurnActor::new(100);
    hasted.set_speed_modifier(150);
    assert_eq!(hasted.calculate_action_time(300), 200);
    let frozen = TurnActor::new(0);
    assert_eq!(frozen.calculate_action_time(100), u32::MAX);
    assert_eq!(frozen.calculate_action_time(0), 1);
}

#[test]
fn faster_actors_never_take_longer() {
    for base in [0u32, 1, 7, 100, 1000] {
        let mut last = u32::MAX;
        for speed in [1u32, 10, 50, 100, 150, 1000] {
            let t = TurnActor::new(speed).calculate_action_time(base);
            assert!(t <= last);
            last = t;
        }
    }
}

#[test]
fn speed_modifier_is_clamped_and_reset() {
    let mut actor = TurnActor::new(150);
    actor.set_speed_modifier(5);
    assert_eq!(actor.action_speed_modifier, 10);
    actor.set_speed_modifier(50);
    assert_eq!(actor.effective_speed(), 75);
    actor.reset_speed_modifier();
    assert_eq!(actor.effective_speed(), 150);
    actor.set_speed(80);
    assert_eq!(actor.speed(), 80);
}

#[test]
fn killing_drops_actions_and_readiness() {
    let mut actor = TurnActor::new(100);
    assert!(actor.queue_wait(100).is_ok());
    assert!(actor.is_ready_for_turn());
    actor.kill();
    assert!(!actor.is_alive());
    assert!(!actor.has_action());
    assert!(!actor.is_ready_for_turn());
    assert!(!actor.can_perform_category(ActionCategory::Movement));
    assert!(actor.can_perform_category(ActionCategory::Wait));
    actor.revive();
    assert!(actor.is_alive());
    assert!(actor.queue_action(ActionType::Wait).is_ok());
    actor.set_alive(false);
    assert_eq!(actor.total_action_count(), 0);
}

#[test]
fn queue_capacity_and_trimming() {
    let mut actor = TurnActor::with_queue_limit(100, 3);
    assert_eq!(actor.queue_capacity_remaining(), 3);
    assert!(actor.queue_action(ActionType::Wait).is_ok());
    assert!(actor.queue_action(ActionType::MoveDelta(Direction::North)).is_ok());
    assert!(actor.queue_action(ActionType::MoveDelta(Direction::South)).is_ok());
    assert!(actor.is_queue_full());
    assert_eq!(actor.queue_capacity_remaining(), 0);
    actor.set_max_queued_actions(1);
    assert_eq!(actor.queued_action_count(), 1);
    assert_eq!(actor.peek_next_action(), Some(ActionType::Wait));
}

#[test]
fn debug_info_describes_the_actor() {
    let actor = TurnActor::new(100);
    let text = actor.debug_info();
    assert!(text.contains("speed: 100"));
    assert!(text.contains("alive: true"));
}

#[test]
fn default_actor_has_normal_speed() {
    let actor = TurnActor::default();
    assert_eq!(actor.speed(), 100);
    assert_eq!(actor.max_queued_actions, 10);
}

#[test]
fn turns_start_earliest_first() {
    let mut tm = TurnManager::new();
    assert!(tm.schedule_turn(7, 2, 10).is_ok());
    assert!(tm.schedule_turn(8, 0, 90).is_ok());
    assert!(tm.schedule_turn(9, 1, 0).is_ok());
    assert_eq!(tm.peek_next(), Some((0, 90, 8)));
    assert_eq!(tm.start_entity_turn(), Some(8));
    assert_eq!((tm.current_turn(), tm.current_time()), (0, 90));
    assert_eq!(tm.start_entity_turn(), Some(9));
    assert_eq!(tm.start_entity_turn(), Some(7));
    assert_eq!((tm.current_turn(), tm.current_time()), (2, 10));
    assert_eq!(tm.start_entity_turn(), None);
    assert_eq!(tm.get_statistics().total_turns_processed, 3);
}

#[test]
fn ending_a_turn_schedules_after_the_time_spent() {
    let mut tm = TurnManager::new();
    assert!(tm.schedule_turn(5, 3, 40).is_ok());
    assert_eq!(tm.start_entity_turn(), Some(5));
    assert!(tm.end_entity_turn(5, 170).is_ok());
    assert_eq!(tm.peek_next(), Some((5, 10, 5)));
    assert!(tm.end_entity_turn(6, 0).is_ok());
    assert_eq!(tm.peek_next(), Some((3, 40, 6)));
}

#[test]
fn full_queue_refuses_entries() {
    let mut tm = TurnManager::with_config(10, 1);
    assert!(tm.add_entity(1).is_ok());
    assert_eq!(tm.add_entity(2), Err(GameError::QueueFull));
    assert_eq!(tm.end_entity_turn(2, 10), Err(GameError::QueueFull));
    assert_eq!(tm.schedule_now(2), Err(GameError::QueueFull));
    assert_eq!(tm.total_action_count(), 1);
    tm.set_max_queue_size(2);
    assert_eq!(tm.max_queue_size(), 2);
    assert!(tm.schedule_now(2).is_ok());
}

#[test]
fn scheduling_carries_whole_turns() {
    let mut tm = TurnManager::new();
    assert!(tm.schedule_turn(4, 1, 250).is_ok());
    assert_eq!(tm.peek_next(), Some((3, 50, 4)));
    assert!(tm.is_scheduled(4));
    assert!(!tm.is_scheduled(5));
}

#[test]
fn advancing_the_clock_makes_the_target_due() {
    let mut tm = TurnManager::new();
    tm.advance_to(2, 30);
    assert_eq!((tm.current_turn(), tm.current_time()), (2, 30));
    assert_eq!(tm.time_until(2, 30), 0);
    tm.advance_to(1, 0);
    assert_eq!((tm.current_turn(), tm.current_time()), (2, 30));
    assert_eq!(tm.time_until(1, 0), 0);
    tm.advance_to(2, 130);
    assert_eq!((tm.current_turn(), tm.current_time()), (3, 30));
}

#[test]
fn adding_then_removing_restores_the_queue() {
    let mut tm = TurnManager::new();
    assert!(tm.schedule_turn(1, 0, 20).is_ok());
    assert!(tm.schedule_turn(2, 1, 0).is_ok());
    let before = tm.peek_next_entities(10);
    assert!(tm.add_entity(3).is_ok());
    assert!(tm.remove_entity(3));
    assert_eq!(tm.peek_next_entities(10), before);
}

#[test]
fn entities_for_a_turn_and_peeking() {
    let mut tm = TurnManager::new();
    assert!(tm.schedule_turn(1, 1, 20).is_ok());
    assert!(tm.schedule_turn(2, 0, 5).is_ok());
    assert!(tm.schedule_turn(3, 1, 10).is_ok());
    assert_eq!(tm.get_entities_for_turn(1), vec![(10, 3), (20, 1)]);
    assert_eq!(tm.get_entities_for_turn(4), vec![]);
    assert_eq!(tm.peek_next_entities(2), vec![(0, 5, 2), (1, 10, 3)]);
    assert_eq!(tm.peek_next_entities(9).len(), 3);
}

#[test]
fn clearing_the_manager() {
    let mut tm = TurnManager::new();
    assert!(tm.schedule_turn(1, 4, 20).is_ok());
    assert_eq!(tm.start_entity_turn(), Some(1));
    tm.clear_entities(false);
    assert_eq!((tm.current_turn(), tm.current_time()), (4, 0));
    tm.clear_entities(true);
    assert_eq!(tm.current_turn(), 0);
    assert!(tm.is_empty());
}

#[test]
fn cleanup_thresholds() {
    let tm = TurnManager::new();
    assert_eq!(tm.get_cleanup_threshold(10), 200);
    assert_eq!(tm.get_cleanup_threshold(500), 100);
    assert_eq!(tm.get_cleanup_threshold(2000), 50);
}

#[test]
fn cleanup_removes_dead_entities_once_due() {
    let mut tm = TurnManager::with_config(0, 100);
    assert!(tm.schedule_turn(1, 0, 10).is_ok());
    assert!(tm.schedule_turn(2, 0, 20).is_ok());
    assert!(tm.schedule_turn(3, 0, 30).is_ok());
    let m = tm.cleanup_dead_entities(10, &vec![1, 3]);
    assert_eq!(m.entities_removed, 1);
    assert_eq!(m.queue_size_before, 3);
    assert_eq!(m.queue_size_after, 2);
    assert_eq!(tm.peek_next_entities(5), vec![(0, 10, 1), (0, 30, 3)]);
    let stats = tm.get_statistics();
    assert_eq!(stats.total_cleanups, 1);
    assert_eq!(stats.total_entities_removed, 1);

    let mut lazy = TurnManager::new();
    assert!(lazy.add_entity(9).is_ok());
    let m = lazy.cleanup_dead_entities(10, &vec![]);
    assert_eq!(m.entities_removed, 0);
    assert_eq!(lazy.total_action_count(), 1);
    assert_eq!(lazy.get_statistics().operations_since_cleanup, 1);
}

#[test]
fn cleanup_with_everyone_alive_changes_nothing() {
    let mut tm = TurnManager::with_config(0, 100);
    assert!(tm.schedule_turn(1, 0, 10).is_ok());
    assert!(tm.schedule_turn(2, 2, 0).is_ok());
    let before = tm.peek_next_entities(5);
    let m = tm.cleanup_dead_entities(3, &vec![2, 1]);
    assert_eq!(m.entities_removed, 0);
    assert_eq!(tm.peek_next_entities(5), before);
}

#[test]
fn threshold_setter_and_statistics() {
    let mut tm = TurnManager::default();
    assert_eq!(tm.max_queue_size(), 0);
    tm.set_cleanup_threshold(42);
    let stats = tm.get_statistics();
    assert_eq!(stats.cleanup_threshold, 42);
    assert_eq!(stats.queue_size, 0);
}

#[test]
fn valid_queue_passes_validation() {
    let mut tm = TurnManager::new();
    assert!(tm.schedule_turn(1, 0, 99).is_ok());
    assert!(tm.schedule_turn(2, 0, 5).is_ok());
    let result = tm.validate_queue_integrity();
    assert!(result.is_valid);
    assert_eq!(result.queue_size, 2);
}

#[test]
fn costlier_actions_never_take_less_time() {
    for speed in [1u32, 30, 100, 250] {
        let actor = TurnActor::new(speed);
        let mut last = 0;
        for base in [0u32, 1, 10, 100, 1000, 100_000] {
            let t = actor.calculate_action_time(base);
            assert!(t >= last);
            last = t;
        }
    }
}

#[test]
fn spawn_defaults() {
    let player = EntitySpawnConfig::player();
    assert_eq!((player.default_view_radius, player.default_turn_speed), (8, 1000));
    let ai = EntitySpawnConfig::ai();
    assert_eq!(ai.view_radius(None), 6);
    assert_eq!(ai.view_radius(Some(3)), 3);
    assert_eq!(ai.turn_actor(None).speed(), 1000);
    let fast = ai.turn_actor(Some(150));
    assert_eq!(fast.speed(), 150);
    assert!(fast.is_alive() && !fast.has_action());
}

#[test]
fn the_clock_never_moves_backwards() {
    let mut tm = TurnManager::new();
    for e in 1..=4u64 {
        assert!(tm.add_entity(e).is_ok());
    }
    let mut last = (0u32, 0u32);
    for round in 0..40u32 {
        let e = tm.start_entity_turn().unwrap();
        let now = (tm.current_turn(), tm.current_time());
        assert!(now >= last);
        last = now;
        assert!(tm.end_entity_turn(e, (round * 37 + e as u32 * 11) % 250).is_ok());
    }
}

#[test]
fn debug_info_text_is_exact() {
    let actor = TurnActor::new(100);
    assert_eq!(
        actor.debug_info(),
        "TurnActor { alive: true, speed: 100, modifier: 1.00, forced: 0, queued: 0, preferred: false }"
    );
}
