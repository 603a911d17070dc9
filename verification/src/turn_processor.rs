use vstd::prelude::*;

use crate::action::{ActionType, GameError};
use crate::turn_actor::TurnActor;
use crate::turn_manager::{abs_time, inserted, lemma_queue_sorted, TurnEntry, TurnManager, TURN_TIME};

verus! {

/// Most turns processed in one frame, so that a frame always ends.
pub const MAX_TURNS_PER_FRAME: u32 = 50;

/// Most times an action may ask to be replaced before the actor just waits.
pub const MAX_RETRIES: u8 = 3;

/// What the player's turn does.
#[derive(Clone, Copy, Debug, PartialEq, Eq, Structural)]
pub enum PlayerTurnDecision {
    ExecuteQueuedAction,
    SkipTurn,
    WaitForInput,
}

/// What an AI actor's turn does.
#[derive(Clone, Copy, Debug, PartialEq, Eq, Structural)]
pub enum AiTurnDecision {
    ExecuteQueuedAction,
    Wait,
}

/// How turn processing goes on after one actor's turn.
#[derive(Clone, Copy, Debug, PartialEq, Eq, Structural)]
pub enum TurnFlowControl {
    /// Go on with the next actor.
    Continue,
    /// Stop processing for this frame.
    EndProcessing,
    /// Stop and wait for the player's input.
    WaitForInput,
}

/// What to do after one attempt at performing an action.
#[derive(Clone, Copy, Debug)]
pub enum RetryStep {
    /// Perform this replacement action next.
    Retry(ActionType),
    /// The attempt is over, with this time spent or error.
    Finish(Result<u32, GameError>),
}

/// What one actor's turn consists of, once its next action (if any) is taken.
#[derive(Clone, Copy, Debug, PartialEq, Eq, Structural)]
pub enum TurnPlan {
    /// Perform this action.
    Execute(ActionType),
    /// The player has nothing to do and waits for input.
    AwaitInput,
    /// The player's turn passes without an action.
    SkipTurn,
    /// The AI has nothing to do and waits.
    AiWait,
}

/// A player with a pending action executes it; otherwise it waits for input.
pub fn decide_player_action(actor: &TurnActor) -> (d: PlayerTurnDecision)
    ensures
        actor.pending().len() > 0 ==> d == PlayerTurnDecision::ExecuteQueuedAction,
        actor.pending().len() == 0 ==> d == PlayerTurnDecision::WaitForInput,
{
    if actor.has_action() {
        if actor.peek_next_action().is_some() {
            PlayerTurnDecision::ExecuteQueuedAction
        } else {
            PlayerTurnDecision::SkipTurn
        }
    } else {
        PlayerTurnDecision::WaitForInput
    }
}

/// An AI actor with a pending action executes it; otherwise it waits.
pub fn decide_ai_action(actor: &TurnActor) -> (d: AiTurnDecision)
    ensures
        d == (if actor.pending().len() > 0 {
            AiTurnDecision::ExecuteQueuedAction
        } else {
            AiTurnDecision::Wait
        }),
{
    if actor.has_action() {
        AiTurnDecision::ExecuteQueuedAction
    } else {
        AiTurnDecision::Wait
    }
}

/// Time charged for an action's outcome: what it took, or `failure_time` when
/// it failed.
pub open spec fn charged_time(result: Result<u32, GameError>, failure_time: int) -> int {
    match result {
        Ok(t) => t as int,
        Err(_) => failure_time,
    }
}

/// After the player's action: the player's turn ends, charged the time the
/// action took (nothing when it failed), and processing stops for the frame.
pub fn handle_player_action_result(
    result: Result<u32, GameError>,
    entity: u64,
    turn_manager: &mut TurnManager,
) -> (flow: TurnFlowControl)
    requires
        old(turn_manager).wf(),
        charged_time(result, 0) > 0 ==> old(turn_manager).can_spend(charged_time(result, 0)),
    ensures
        flow == TurnFlowControl::EndProcessing,
        old(turn_manager).ended_turn(&*final(turn_manager), entity, charged_time(result, 0)),
{
    match result {
        Ok(time_spent) => {
            let _ = turn_manager.end_entity_turn(entity, time_spent);
        },
        Err(_) => {
            let _ = turn_manager.end_entity_turn(entity, 0);
        },
    }
    TurnFlowControl::EndProcessing
}

/// After an AI action: the actor's turn ends, charged the time the action
/// took, or 50 units (a short delay before trying again) when it failed;
/// processing goes on.
pub fn handle_ai_action_result(
    result: Result<u32, GameError>,
    entity: u64,
    turn_manager: &mut TurnManager,
) -> (flow: TurnFlowControl)
    requires
        old(turn_manager).wf(),
        old(turn_manager).can_spend(charged_time(result, 50)),
    ensures
        flow == TurnFlowControl::Continue,
        old(turn_manager).ended_turn(&*final(turn_manager), entity, charged_time(result, 50)),
{
    match result {
        Ok(time_spent) => {
            let _ = turn_manager.end_entity_turn(entity, time_spent);
        },
        Err(_) => {
            let _ = turn_manager.end_entity_turn(entity, 50);
        },
    }
    TurnFlowControl::Continue
}

/// The player is put back in the queue at once and processing waits for
/// input.
pub fn handle_player_wait_for_input(entity: u64, turn_manager: &mut TurnManager) -> (flow:
    TurnFlowControl)
    requires
        old(turn_manager).wf(),
    ensures
        flow == TurnFlowControl::WaitForInput,
        old(turn_manager).ended_turn(&*final(turn_manager), entity, 0),
{
    let _ = turn_manager.end_entity_turn(entity, 0);
    TurnFlowControl::WaitForInput
}

/// An AI actor without actions waits the default 100 units; processing goes
/// on.
pub fn handle_ai_wait(entity: u64, turn_manager: &mut TurnManager) -> (flow: TurnFlowControl)
    requires
        old(turn_manager).wf(),
        old(turn_manager).can_spend(100),
    ensures
        flow == TurnFlowControl::Continue,
        old(turn_manager).ended_turn(&*final(turn_manager), entity, 100),
{
    let _ = turn_manager.end_entity_turn(entity, 100);
    TurnFlowControl::Continue
}

/// The player's turn passes without spending time; processing goes on.
pub fn handle_player_skip_turn(entity: u64, turn_manager: &mut TurnManager) -> (flow:
    TurnFlowControl)
    requires
        old(turn_manager).wf(),
    ensures
        flow == TurnFlowControl::Continue,
        old(turn_manager).ended_turn(&*final(turn_manager), entity, 0),
{
    let _ = turn_manager.end_entity_turn(entity, 0);
    TurnFlowControl::Continue
}

/// The outcome of an attempt given the attempts already retried: a success
/// reports its time (as `u32`); a request to retry is followed unless it
/// would be the third retry, when the actor waits 100 units; an invalid
/// target costs 50 units, missing resources 100 and a blocked action 25;
/// any other error is passed on.
pub open spec fn retry_outcome(outcome: Result<u64, GameError>, retries: int) -> RetryStep {
    match outcome {
        Ok(t) => RetryStep::Finish(Ok(t as u32)),
        Err(GameError::Retry(a)) => if retries + 1 >= MAX_RETRIES {
            RetryStep::Finish(Ok(100))
        } else {
            RetryStep::Retry(a)
        },
        Err(GameError::InvalidTarget) => RetryStep::Finish(Ok(50)),
        Err(GameError::InsufficientResources) => RetryStep::Finish(Ok(100)),
        Err(GameError::ActionBlocked) => RetryStep::Finish(Ok(25)),
        Err(e) => RetryStep::Finish(Err(e)),
    }
}

/// One step of performing an action with retries: given what the last
/// attempt returned and how many retries were made before it, says what to
/// do next and how many retries have been made then.
pub fn next_retry_step(outcome: Result<u64, GameError>, retries: u8) -> (r: (RetryStep, u8))
    requires
        retries < MAX_RETRIES,
    ensures
        r.0 == retry_outcome(outcome, retries as int),
        r.1 == (if outcome matches Err(GameError::Retry(_)) {
            retries + 1
        } else {
            retries as int
        }),
        r.0 is Retry ==> r.1 < MAX_RETRIES,
{
    match outcome {
        Ok(time_spent) => (RetryStep::Finish(Ok(time_spent as u32)), retries),
        Err(GameError::Retry(new_action)) => {
            let retries = retries + 1;
            if retries >= MAX_RETRIES {
                (RetryStep::Finish(Ok(100)), retries)
            } else {
                (RetryStep::Retry(new_action), retries)
            }
        },
        Err(GameError::InvalidTarget) => (RetryStep::Finish(Ok(50)), retries),
        Err(GameError::InsufficientResources) => (RetryStep::Finish(Ok(100)), retries),
        Err(GameError::ActionBlocked) => (RetryStep::Finish(Ok(25)), retries),
        Err(e) => (RetryStep::Finish(Err(e)), retries),
    }
}

/// Starts the next turn of the frame: none once `MAX_TURNS_PER_FRAME` turns
/// were processed or when the queue is empty; otherwise the earliest entity
/// is taken off the queue and the count goes up by one.
pub fn begin_next_turn(turn_manager: &mut TurnManager, turns_processed: &mut u32) -> (r: Option<
    u64,
>)
    requires
        old(turn_manager).wf(),
        old(turn_manager).turns_processed() < u64::MAX,
    ensures
        final(turn_manager).wf(),
        *old(turns_processed) >= MAX_TURNS_PER_FRAME ==> r is None && *final(turn_manager)
            == *old(turn_manager) && *final(turns_processed) == *old(turns_processed),
        *old(turns_processed) < MAX_TURNS_PER_FRAME && old(turn_manager).queue().len() == 0 ==> r is None
            && *final(turn_manager) == *old(turn_manager) && *final(turns_processed) == *old(turns_processed),
        *old(turns_processed) < MAX_TURNS_PER_FRAME && old(turn_manager).queue().len() > 0 ==> {
            let e = old(turn_manager).queue()[0];
            &&& r == Some(e.2)
            &&& *final(turns_processed) == *old(turns_processed) + 1
            &&& final(turn_manager).queue() == old(turn_manager).queue().drop_first()
            &&& final(turn_manager).turn() == e.0
            &&& final(turn_manager).time() == e.1
            &&& final(turn_manager).turns_processed() == old(turn_manager).turns_processed() + 1
            &&& final(turn_manager).max_size() == old(turn_manager).max_size()
            &&& final(turn_manager).threshold() == old(turn_manager).threshold()
            &&& final(turn_manager).ops_since_cleanup() == old(turn_manager).ops_since_cleanup()
            &&& final(turn_manager).cleanups() == old(turn_manager).cleanups()
            &&& final(turn_manager).entities_removed() == old(turn_manager).entities_removed()
        },
{
    if *turns_processed >= MAX_TURNS_PER_FRAME {
        return None;
    }
    let next = turn_manager.start_entity_turn();
    if next.is_some() {
        *turns_processed = *turns_processed + 1;
    }
    next
}

/// Takes what a live actor does this turn: its next pending action, if any,
/// is taken off it; a player without one awaits input and an AI actor
/// without one waits.
pub fn plan_turn(actor: &mut TurnActor, is_player: bool) -> (plan: TurnPlan)
    ensures
        final(actor).same_settings(&*old(actor)),
        old(actor).pending().len() > 0 ==> plan == TurnPlan::Execute(old(actor).pending()[0])
            && final(actor).pending() == old(actor).pending().drop_first(),
        old(actor).pending().len() == 0 ==> final(actor).pending() == old(actor).pending() && plan
            == (if is_player {
            TurnPlan::AwaitInput
        } else {
            TurnPlan::AiWait
        }),
{
    if is_player {
        match decide_player_action(actor) {
            PlayerTurnDecision::ExecuteQueuedAction => match actor.next_action() {
                Some(action) => TurnPlan::Execute(action),
                None => TurnPlan::SkipTurn,
            },
            PlayerTurnDecision::SkipTurn => TurnPlan::SkipTurn,
            PlayerTurnDecision::WaitForInput => TurnPlan::AwaitInput,
        }
    } else {
        match decide_ai_action(actor) {
            AiTurnDecision::ExecuteQueuedAction => match actor.next_action() {
                Some(action) => TurnPlan::Execute(action),
                None => TurnPlan::AiWait,
            },
            AiTurnDecision::Wait => TurnPlan::AiWait,
        }
    }
}

/// Whether an entity taken off the queue takes its turn: one without a turn
/// actor, without the other components the loop needs (`has_components`
/// false), or whose actor is dead, is dropped from the queue (not queued
/// again).
pub fn takes_turn(actor: Option<&TurnActor>, has_components: bool) -> (b: bool)
    ensures
        b == (has_components && (actor matches Some(a) && a.alive)),
{
    if !has_components {
        return false;
    }
    match actor {
        Some(a) => a.is_alive(),
        None => false,
    }
}

/// What the turn loop does after one actor's turn.
#[derive(Clone, Copy, Debug, PartialEq, Eq, Structural)]
pub enum LoopStep {
    /// Take the next actor.
    NextTurn,
    /// Stop for this frame.
    Stop,
    /// Stop for this frame, after clearing the AI actors' preferred actions.
    StopAndClearAiPreferences,
}

/// The turn loop's decision after a turn, from the flow its handler gave:
/// go on, or stop; when the player's own action ended processing, the AI
/// actors' preferred actions are cleared first.
pub fn after_turn(flow: TurnFlowControl, is_player: bool) -> (step: LoopStep)
    ensures
        step == (match flow {
            TurnFlowControl::Continue => LoopStep::NextTurn,
            TurnFlowControl::EndProcessing => if is_player {
                LoopStep::StopAndClearAiPreferences
            } else {
                LoopStep::Stop
            },
            TurnFlowControl::WaitForInput => LoopStep::Stop,
        }),
{
    match flow {
        TurnFlowControl::Continue => LoopStep::NextTurn,
        TurnFlowControl::EndProcessing => if is_player {
            LoopStep::StopAndClearAiPreferences
        } else {
            LoopStep::Stop
        },
        TurnFlowControl::WaitForInput => LoopStep::Stop,
    }
}

/// Clears an actor's preferred action after the player's turn, unless the
/// actor is the player; nothing else changes.
pub fn clear_ai_preference(actor: &mut TurnActor, is_player: bool)
    ensures
        final(actor).same_settings(&*old(actor)),
        final(actor).forced_actions@ == old(actor).forced_actions@,
        final(actor).actions@ == old(actor).actions@,
        final(actor).preferred_action == (if is_player {
            old(actor).preferred_action
        } else {
            None
        }),
{
    if !is_player && actor.get_preferred_action().is_some() {
        actor.clear_preferred_action();
    }
}

/// Time an AI actor with nothing to do waits before its next turn in the
/// queue loop.
pub const AI_WAIT_TIME: u64 = 100;

/// What the queue loop does with an actor whose turn came at `time`.
#[derive(Clone, Copy, Debug, PartialEq, Eq, Structural)]
pub enum QueueLoopStep {
    /// Queue the player again at this time and end the frame to wait for its
    /// input.
    AwaitInput(u64),
    /// Queue the actor again at this later time and end the frame, so that
    /// the AI systems can give it something to do.
    Yield(u64),
    /// Perform this action, then queue the actor by `reschedule_time`.
    Perform(ActionType),
}

/// The time an idle actor whose turn came at `time` is queued again:
/// `AI_WAIT_TIME` later, at most `u64::MAX`.
pub open spec fn idle_requeue_time(time: u64) -> u64 {
    if time <= u64::MAX - AI_WAIT_TIME {
        (time + AI_WAIT_TIME) as u64
    } else {
        u64::MAX
    }
}

/// The queue loop's decision from an actor's plan at `time`: the player
/// without an action is queued again at the same time and input is awaited;
/// an actor whose turn passes without an action is queued again
/// `AI_WAIT_TIME` later and the frame ends; an action is performed.
pub fn queue_loop_step(plan: TurnPlan, time: u64) -> (step: QueueLoopStep)
    ensures
        step == (match plan {
            TurnPlan::AwaitInput => QueueLoopStep::AwaitInput(time),
            TurnPlan::AiWait => QueueLoopStep::Yield(idle_requeue_time(time)),
            TurnPlan::SkipTurn => QueueLoopStep::Yield(idle_requeue_time(time)),
            TurnPlan::Execute(a) => QueueLoopStep::Perform(a),
        }),
{
    let later = time.saturating_add(AI_WAIT_TIME);
    match plan {
        TurnPlan::AwaitInput => QueueLoopStep::AwaitInput(time),
        TurnPlan::AiWait => QueueLoopStep::Yield(later),
        TurnPlan::SkipTurn => QueueLoopStep::Yield(later),
        TurnPlan::Execute(a) => QueueLoopStep::Perform(a),
    }
}

/// One turn of the queue loop for a live actor whose turn came at `time`:
/// its plan (`plan_turn`) decides the step (`queue_loop_step`). Every turn
/// makes progress: either it ends the frame, or it performs an action taken
/// off the actor's pending actions, of which there are finitely many; so a
/// frame ends once the performed actions run out. An idle actor comes back
/// strictly later unless its time is at the very end of the clock.
pub fn queue_turn(actor: &mut TurnActor, is_player: bool, time: u64) -> (step: QueueLoopStep)
    ensures
        final(actor).same_settings(&*old(actor)),
        step matches QueueLoopStep::Perform(a) ==> old(actor).pending().len() > 0 && a == old(
            actor).pending()[0] && final(actor).pending() == old(actor).pending().drop_first(),
        !(step is Perform) ==> final(actor).pending() == old(actor).pending() && old(
            actor).pending().len() == 0,
        step matches QueueLoopStep::AwaitInput(t) ==> is_player && t == time,
        step matches QueueLoopStep::Yield(t) ==> !is_player && t == idle_requeue_time(time) && (
        time < u64::MAX - AI_WAIT_TIME ==> t > time),
{
    let plan = plan_turn(actor, is_player);
    queue_loop_step(plan, time)
}

/// Performing an action ends within three attempts: the third request to
/// retry is not followed, the actor waits 100 units instead, and every other
/// outcome ends the attempt at once.
pub proof fn lemma_retries_end(outcome: Result<u64, GameError>, a: ActionType)
    ensures
        retry_outcome(Err(GameError::Retry(a)), 2) == RetryStep::Finish(Ok(100)),
        !(outcome matches Err(GameError::Retry(_))) ==> retry_outcome(outcome, 0) is Finish,
{
}

/// A player waiting for input is put back at the very moment its turn
/// began: when taking the player's turn (`begin_next_turn`) left the queue
/// empty, the turn ended with no time spent (`handle_player_wait_for_input`)
/// leaves exactly the player's entry at the current turn and time.
pub proof fn lemma_waiting_player_requeued(t1: &TurnManager, t2: &TurnManager, player: u64)
    requires
        t1.wf(),
        t1.queue().len() == 0,
        t1.max_size() > 0,
        t1.ended_turn(t2, player, 0),
    ensures
        t2.queue() == seq![(t1.turn(), t1.time(), player)],
        t2.turn() == t1.turn(),
        t2.time() == t1.time(),
        t2.max_size() == t1.max_size(),
{
    lemma_queue_sorted(t1);
    let e = choose|e: TurnEntry|
        {
            &&& e.2 == player
            &&& e.1 < TURN_TIME
            &&& abs_time(e.0 as int, e.1 as int) == abs_time(t1.turn() as int, t1.time() as int)
            &&& #[trigger] inserted(t1.queue(), t2.queue(), e)
        };
    let a = e.0 as int;
    let b = e.1 as int;
    let c = t1.turn() as int;
    let d = t1.time() as int;
    let tt = TURN_TIME as int;
    assert(a == c && b == d) by (nonlinear_arith)
        requires
            a * tt + b == c * tt + d,
            0 <= b < tt,
            0 <= d < tt,
    ;
    assert(t2.queue() =~= seq![(t1.turn(), t1.time(), player)]);
}

} // verus!
