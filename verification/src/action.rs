use vstd::prelude::*;

use crate::position::{Direction, Position};

verus! {

/// Broad kinds of actions, used to filter and prioritise queued actions.
#[derive(Clone, Copy, Debug, PartialEq, Eq, Hash, Structural)]
pub enum ActionCategory {
    Movement,
    Attack,
    Spell,
    Item,
    Wait,
    Interact,
    Social,
    Craft,
}

/// An action an actor can queue for a turn.
#[derive(Clone, Copy, Debug, PartialEq, Eq, Hash, Structural)]
pub enum ActionType {
    /// Spend a turn doing nothing.
    Wait,
    /// Do nothing for the given time.
    WaitFor(u64),
    /// Walk toward a destination cell.
    Move(Position),
    /// Walk one step in a direction.
    MoveDelta(Direction),
    /// Attack the occupant of a cell.
    Attack(Position),
}

/// Errors that performing an action or scheduling a turn can report.
#[derive(Clone, Copy, Debug, PartialEq, Eq, Structural)]
pub enum GameError {
    /// The turn queue holds as many entries as it may.
    QueueFull,
    /// The action asks to be replaced by another one and tried again.
    Retry(ActionType),
    /// The action's target is not valid.
    InvalidTarget,
    /// The actor lacks what the action needs.
    InsufficientResources,
    /// Something blocks the action.
    ActionBlocked,
    /// The acting entity does not exist.
    EntityNotFound,
    /// The action cannot be performed at all.
    InvalidAction,
}

/// Category of an action type.
pub open spec fn category_of(a: ActionType) -> ActionCategory {
    match a {
        ActionType::Wait => ActionCategory::Wait,
        ActionType::WaitFor(_) => ActionCategory::Wait,
        ActionType::Move(_) => ActionCategory::Movement,
        ActionType::MoveDelta(_) => ActionCategory::Movement,
        ActionType::Attack(_) => ActionCategory::Attack,
    }
}

/// Both kinds of waiting, whatever their duration, are of the wait category,
/// and they are the only actions that are.
pub proof fn lemma_wait_actions_are_waits(d: u64)
    ensures
        category_of(ActionType::Wait) == ActionCategory::Wait,
        category_of(ActionType::WaitFor(d)) == ActionCategory::Wait,
        forall|a: ActionType|
            (#[trigger] category_of(a) == ActionCategory::Wait) <==> (a is Wait || a is WaitFor),
{
}

impl ActionType {
    /// The category this action belongs to.
    pub fn category(&self) -> (c: ActionCategory)
        ensures
            c == category_of(*self),
    {
        match self {
            ActionType::Wait => ActionCategory::Wait,
            ActionType::WaitFor(_) => ActionCategory::Wait,
            ActionType::Move(_) => ActionCategory::Movement,
            ActionType::MoveDelta(_) => ActionCategory::Movement,
            ActionType::Attack(_) => ActionCategory::Attack,
        }
    }

    /// Whether this action jumps ahead of other forced actions; none of the
    /// basic action types interrupts.
    pub fn can_interrupt(&self) -> (b: bool)
        ensures
            !b,
    {
        false
    }
}

} // verus!
