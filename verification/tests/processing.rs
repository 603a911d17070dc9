use echos_in_the_dark::action::{ActionType, GameError};
use echos_in_the_dark::position::{Direction, Position};
use echos_in_the_dark::turn_actor::TurnActor;
use echos_in_the_dark::turn_manager::TurnManager;
use echos_in_the_dark::turn_processor::{
    begin_next_turn, decide_ai_action, decide_player_action, handle_ai_action_result,
    handle_ai_wait, handle_player_action_result, handle_player_skip_turn,
    handle_player_wait_for_input, next_retry_step, plan_turn, AiTurnDecision, PlayerTurnDecision,
    RetryStep, TurnFlowControl, TurnPlan, MAX_TURNS_PER_FRAME,
};
use echos_in_the_dark::turn_queue::{reschedule_time, TurnQueue};
use echos_in_the_dark::turn_processor::{
    after_turn, clear_ai_preference, queue_loop_step, queue_turn, takes_turn, LoopStep,
    QueueLoopStep,
};

#[test]
fn player_decision_depends_on_pending_actions() {
    let mut actor = TurnActor::new(100);
    assert_eq!(decide_player_action(&actor), PlayerTurnDecision::WaitForInput);
    actor.set_preferred_action(ActionType::Wait);
    assert_eq!(decide_player_action(&actor), PlayerTurnDecision::ExecuteQueuedAction);
}

#[test]
fn ai_decision_depends_on_pending_actions() {
    let mut actor = TurnActor::new(100);
    assert_eq!(decide_ai_action(&actor), AiTurnDecision::Wait);
    assert!(actor.queue_action(ActionType::Wait).is_ok());
    assert_eq!(decide_ai_action(&actor), AiTurnDecision::ExecuteQueuedAction);
}

#[test]
fn player_results_end_processing() {
    let mut tm = TurnManager::new();
    let flow = handle_player_action_result(Ok(120), 1, &mut tm);
    assert_eq!(flow, TurnFlowControl::EndProcessing);
    assert_eq!(tm.peek_next(), Some((1, 20, 1)));
    let flow = handle_player_action_result(Err(GameError::InvalidAction), 2, &mut tm);
    assert_eq!(flow, TurnFlowControl::EndProcessing);
    assert_eq!(tm.peek_next(), Some((0, 0, 2)));
}

#[test]
fn ai_results_continue_processing() {
    let mut tm = TurnManager::new();
    assert_eq!(handle_ai_action_result(Ok(30), 1, &mut tm), TurnFlowControl::Continue);
    assert_eq!(
        handle_ai_action_result(Err(GameError::EntityNotFound), 2, &mut tm),
        TurnFlowControl::Continue
    );
    assert_eq!(tm.peek_next_entities(5), vec![(0, 30, 1), (0, 50, 2)]);
}

#[test]
fn waiting_and_skipping_turns() {
    let mut tm = TurnManager::new();
    assert_eq!(handle_player_wait_for_input(1, &mut tm), TurnFlowControl::WaitForInput);
    assert_eq!(handle_player_skip_turn(2, &mut tm), TurnFlowControl::Continue);
    assert_eq!(handle_ai_wait(3, &mut tm), TurnFlowControl::Continue);
    assert_eq!(tm.peek_next_entities(5), vec![(0, 0, 1), (0, 0, 2), (1, 0, 3)]);
}

#[test]
fn retry_step_for_each_outcome() {
    assert!(matches!(next_retry_step(Ok(70), 0), (RetryStep::Finish(Ok(70)), 0)));
    assert!(matches!(
        next_retry_step(Ok(0x1_0000_0005), 0),
        (RetryStep::Finish(Ok(5)), 0)
    ));
    assert!(matches!(
        next_retry_step(Err(GameError::Retry(ActionType::Wait)), 0),
        (RetryStep::Retry(ActionType::Wait), 1)
    ));
    assert!(matches!(
        next_retry_step(Err(GameError::Retry(ActionType::Wait)), 2),
        (RetryStep::Finish(Ok(100)), 3)
    ));
    assert!(matches!(
        next_retry_step(Err(GameError::InvalidTarget), 1),
        (RetryStep::Finish(Ok(50)), 1)
    ));
    assert!(matches!(
        next_retry_step(Err(GameError::InsufficientResources), 0),
        (RetryStep::Finish(Ok(100)), 0)
    ));
    assert!(matches!(
        next_retry_step(Err(GameError::ActionBlocked), 0),
        (RetryStep::Finish(Ok(25)), 0)
    ));
    assert!(matches!(
        next_retry_step(Err(GameError::QueueFull), 0),
        (RetryStep::Finish(Err(GameError::QueueFull)), 0)
    ));
    assert!(matches!(
        next_retry_step(Err(GameError::EntityNotFound), 2),
        (RetryStep::Finish(Err(GameError::EntityNotFound)), 2)
    ));
    assert!(matches!(
        next_retry_step(Err(GameError::InvalidAction), 0),
        (RetryStep::Finish(Err(GameError::InvalidAction)), 0)
    ));
}

#[test]
fn a_frame_processes_at_most_fifty_turns() {
    let mut tm = TurnManager::new();
    assert!(tm.add_entity(1).is_ok());
    let mut processed: u32 = 0;
    let mut taken = 0;
    while let Some(e) = begin_next_turn(&mut tm, &mut processed) {
        taken += 1;
        assert!(tm.end_entity_turn(e, 10).is_ok());
    }
    assert_eq!(taken, MAX_TURNS_PER_FRAME);
    assert_eq!(processed, 50);
    assert_eq!(tm.total_action_count(), 1);
}

#[test]
fn an_empty_queue_starts_no_turn() {
    let mut tm = TurnManager::new();
    let mut processed: u32 = 3;
    assert_eq!(begin_next_turn(&mut tm, &mut processed), None);
    assert_eq!(processed, 3);
}

#[test]
fn planning_a_turn() {
    let mut player = TurnActor::new(100);
    assert_eq!(plan_turn(&mut player, true), TurnPlan::AwaitInput);
    assert!(player.queue_action(ActionType::MoveDelta(Direction::North)).is_ok());
    assert_eq!(
        plan_turn(&mut player, true),
        TurnPlan::Execute(ActionType::MoveDelta(Direction::North))
    );
    assert!(!player.has_action());

    let mut monster = TurnActor::new(100);
    assert_eq!(plan_turn(&mut monster, false), TurnPlan::AiWait);
    monster.set_preferred_action(ActionType::Attack(Position::new(1, 2)));
    assert_eq!(
        plan_turn(&mut monster, false),
        TurnPlan::Execute(ActionType::Attack(Position::new(1, 2)))
    );
}

#[test]
fn turn_queue_takes_earliest_first() {
    let mut tq = TurnQueue::default();
    assert!(tq.is_empty());
    tq.schedule_turn(3, 500);
    tq.schedule_turn(1, 200);
    tq.schedule_turn(2, 200);
    assert_eq!(tq.peek_next(), Some((1, 200)));
    assert!(tq.is_scheduled(2));
    assert!(!tq.is_scheduled(4));
    assert_eq!(tq.get_next_actor(), Some((1, 200)));
    assert_eq!(tq.current_time(), 200);
    assert_eq!(tq.get_next_actor(), Some((2, 200)));
    assert_eq!(tq.get_next_actor(), Some((3, 500)));
    assert_eq!(tq.current_time(), 500);
    assert_eq!(tq.get_next_actor(), None);
    assert_eq!(tq.current_time(), 500);
}

#[test]
fn turn_queue_clock_wraps() {
    let mut tq = TurnQueue::default();
    tq.schedule_turn(1, u64::MAX - 9);
    assert_eq!(tq.get_next_actor(), Some((1, u64::MAX - 9)));
    assert_eq!(tq.time_until(u64::MAX), 9);
    assert_eq!(tq.time_until(5), 15);
    assert!(tq.is_before(u64::MAX, 5));
    assert!(!tq.is_before(5, u64::MAX));
    assert!(!tq.is_before(7, tq.current_time()));
    assert_eq!(tq.time_until(tq.current_time()), 0);
}

#[test]
fn turn_queue_cleanup() {
    let tq = TurnQueue::default();
    assert_eq!(tq.get_cleanup_threshold(10), 200);
    assert_eq!(tq.get_cleanup_threshold(5000), 50);
    assert_eq!(tq.get_cleanup_threshold(300), 100);

    let mut tq = TurnQueue::default();
    tq.schedule_turn(1, 10);
    tq.schedule_turn(2, 20);
    for _ in 0..200 {
        let m = tq.cleanup_dead_entities(10, &vec![1]);
        assert_eq!(m.entities_removed, 0);
    }
    let m = tq.cleanup_dead_entities(10, &vec![1]);
    assert_eq!(m.entities_removed, 1);
    assert_eq!(m.queue_size_before, 2);
    assert_eq!(m.queue_size_after, 1);
    assert_eq!(tq.entries(), vec![(10, 1)]);
}

#[test]
fn rescheduling_after_an_action() {
    assert_eq!(reschedule_time(1000, false, &Ok(250)), 1250);
    assert_eq!(reschedule_time(1000, true, &Ok(90_000)), 61_000);
    assert_eq!(reschedule_time(u64::MAX - 5, false, &Ok(100)), u64::MAX);
    assert_eq!(reschedule_time(1000, true, &Err(GameError::InvalidAction)), 1000);
    assert_eq!(reschedule_time(1000, false, &Err(GameError::ActionBlocked)), 2000);
}

#[test]
fn missing_or_dead_actors_are_dropped() {
    let mut actor = TurnActor::new(100);
    assert!(takes_turn(Some(&actor), true));
    assert!(!takes_turn(Some(&actor), false));
    assert!(!takes_turn(None, true));
    actor.kill();
    assert!(!takes_turn(Some(&actor), true));
}

#[test]
fn player_action_end_clears_ai_preferences() {
    assert_eq!(after_turn(TurnFlowControl::EndProcessing, true), LoopStep::StopAndClearAiPreferences);
    assert_eq!(after_turn(TurnFlowControl::EndProcessing, false), LoopStep::Stop);
    assert_eq!(after_turn(TurnFlowControl::WaitForInput, true), LoopStep::Stop);
    assert_eq!(after_turn(TurnFlowControl::Continue, false), LoopStep::NextTurn);
    let mut ai = TurnActor::new(100);
    ai.set_preferred_action(ActionType::Wait);
    clear_ai_preference(&mut ai, false);
    assert_eq!(ai.get_preferred_action(), None);
    let mut player = TurnActor::new(100);
    player.set_preferred_action(ActionType::Wait);
    clear_ai_preference(&mut player, true);
    assert_eq!(player.get_preferred_action(), Some(ActionType::Wait));
}

#[test]
fn queue_loop_requeues_idle_actors_later_and_ends_the_frame() {
    assert_eq!(queue_loop_step(TurnPlan::AwaitInput, 700), QueueLoopStep::AwaitInput(700));
    assert_eq!(queue_loop_step(TurnPlan::AiWait, 700), QueueLoopStep::Yield(800));
    assert_eq!(queue_loop_step(TurnPlan::SkipTurn, u64::MAX - 10), QueueLoopStep::Yield(u64::MAX));
    assert_eq!(
        queue_loop_step(TurnPlan::Execute(ActionType::Wait), 5),
        QueueLoopStep::Perform(ActionType::Wait)
    );
    let mut ai = TurnActor::new(100);
    assert_eq!(queue_turn(&mut ai, false, 40), QueueLoopStep::Yield(140));
    assert!(ai.queue_action(ActionType::Wait).is_ok());
    assert_eq!(queue_turn(&mut ai, false, 40), QueueLoopStep::Perform(ActionType::Wait));
    assert!(!ai.has_action());
}

#[test]
fn begin_next_turn_keeps_queue_settings() {
    let mut tm = TurnManager::with_config(7, 42);
    tm.add_entity(3).unwrap();
    let mut n: u32 = 0;
    assert_eq!(begin_next_turn(&mut tm, &mut n), Some(3));
    assert_eq!(tm.max_queue_size(), 42);
    assert_eq!(tm.get_statistics().cleanup_threshold, 7);
    assert_eq!(n, 1);
}

#[test]
fn debug_info_shows_modifier_in_hundredths() {
    let actor = TurnActor::new(100);
    let s = actor.debug_info();
    assert!(s.contains("modifier: 1.00"), "{}", s);
}

#[test]
fn waiting_player_is_queued_again_at_once() {
    let mut tm = TurnManager::new();
    tm.add_entity(9).unwrap();
    let mut n: u32 = 0;
    assert_eq!(begin_next_turn(&mut tm, &mut n), Some(9));
    let mut player = TurnActor::new(100);
    assert_eq!(plan_turn(&mut player, true), TurnPlan::AwaitInput);
    assert_eq!(handle_player_wait_for_input(9, &mut tm), TurnFlowControl::WaitForInput);
    assert_eq!(tm.peek_next(), Some((0, 0, 9)));
    assert_eq!(tm.total_action_count(), 1);
}
