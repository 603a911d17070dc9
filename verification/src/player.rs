use vstd::prelude::*;

use crate::action::ActionType;
use crate::position::Direction;

verus! {

/// What the player can ask for with the keyboard.
#[derive(Clone, Copy, Debug, PartialEq, Eq, Hash, Structural)]
pub enum PlayerAction {
    NorthWest,
    North,
    NorthEast,
    East,
    SouthEast,
    South,
    SouthWest,
    West,
    Wait,
}

/// The movement direction of a player action, `None` for waiting.
pub open spec fn action_direction(a: PlayerAction) -> Option<Direction> {
    match a {
        PlayerAction::NorthWest => Some(Direction::NorthWest),
        PlayerAction::North => Some(Direction::North),
        PlayerAction::NorthEast => Some(Direction::NorthEast),
        PlayerAction::East => Some(Direction::East),
        PlayerAction::SouthEast => Some(Direction::SouthEast),
        PlayerAction::South => Some(Direction::South),
        PlayerAction::SouthWest => Some(Direction::SouthWest),
        PlayerAction::West => Some(Direction::West),
        PlayerAction::Wait => None,
    }
}

/// The eight movement actions, clockwise from north-west.
pub open spec fn movement_actions() -> Seq<PlayerAction> {
    seq![
        PlayerAction::NorthWest,
        PlayerAction::North,
        PlayerAction::NorthEast,
        PlayerAction::East,
        PlayerAction::SouthEast,
        PlayerAction::South,
        PlayerAction::SouthWest,
        PlayerAction::West,
    ]
}

impl PlayerAction {
    /// The eight movement actions, clockwise from north-west.
    pub fn directions() -> (r: Vec<PlayerAction>)
        ensures
            r@ == movement_actions(),
    {
        let r = vec![
            PlayerAction::NorthWest,
            PlayerAction::North,
            PlayerAction::NorthEast,
            PlayerAction::East,
            PlayerAction::SouthEast,
            PlayerAction::South,
            PlayerAction::SouthWest,
            PlayerAction::West,
        ];
        assert(r@ =~= movement_actions());
        r
    }

    /// The movement direction of this action, `None` for waiting.
    pub fn direction(self) -> (r: Option<Direction>)
        ensures
            r == action_direction(self),
    {
        match self {
            PlayerAction::NorthWest => Some(Direction::NorthWest),
            PlayerAction::North => Some(Direction::North),
            PlayerAction::NorthEast => Some(Direction::NorthEast),
            PlayerAction::East => Some(Direction::East),
            PlayerAction::SouthEast => Some(Direction::SouthEast),
            PlayerAction::South => Some(Direction::South),
            PlayerAction::SouthWest => Some(Direction::SouthWest),
            PlayerAction::West => Some(Direction::West),
            PlayerAction::Wait => None,
        }
    }
}

/// State of one movement key this frame.
#[derive(Clone, Copy, Debug, PartialEq, Eq, Structural)]
pub struct KeyInput {
    /// Pressed this frame.
    pub just_pressed: bool,
    /// Held down for longer than the repeat delay.
    pub held_long: bool,
}

/// Outcome of reading the keys of one frame: the action chosen (if any) and
/// whether the key-repeat timer was restarted.
pub open spec fn read_keys(
    keys: Seq<KeyInput>,
    k: int,
    timer_finished: bool,
    action: Option<ActionType>,
    timer_reset: bool,
) -> (Option<ActionType>, bool)
    decreases keys.len() - k,
{
    if k >= keys.len() || k >= 8 || k < 0 {
        (action, timer_reset)
    } else {
        let key = keys[k];
        let fires = key.just_pressed || (key.held_long && timer_finished);
        if fires {
            read_keys(
                keys,
                k + 1,
                false,
                Some(ActionType::MoveDelta(action_direction(movement_actions()[k]).unwrap())),
                true,
            )
        } else {
            read_keys(keys, k + 1, timer_finished, action, timer_reset)
        }
    }
}

/// Turns one frame of input into the player's action. A wait key pressed
/// this frame asks to wait. Then each movement key, clockwise from
/// north-west, asks to move in its direction when pressed this frame, or when
/// held long while the repeat timer has finished; each such key restarts the
/// timer (so a later held key no longer repeats this frame), and the last key
/// that asks wins. Returns the action and whether the timer was restarted.
pub fn decide_player_input(wait_just_pressed: bool, keys: &Vec<KeyInput>, timer_finished: bool) -> (r: (
    Option<ActionType>,
    bool,
))
    ensures
        r == read_keys(
            keys@,
            0,
            timer_finished,
            if wait_just_pressed {
                Some(ActionType::Wait)
            } else {
                None
            },
            false,
        ),
{
    let mut action: Option<ActionType> = if wait_just_pressed {
        Some(ActionType::Wait)
    } else {
        None
    };
    let mut timer_reset = false;
    let mut finished = timer_finished;
    let directions = PlayerAction::directions();
    let n = if keys.len() < 8 {
        keys.len()
    } else {
        8
    };
    let mut k: usize = 0;
    while k < n
        invariant
            n <= keys@.len(),
            n <= 8,
            k <= n,
            directions@ == movement_actions(),
            n == keys@.len() || n == 8,
            read_keys(keys@, k as int, finished, action, timer_reset) == read_keys(
                keys@,
                0,
                timer_finished,
                if wait_just_pressed {
                    Some(ActionType::Wait)
                } else {
                    None
                },
                false,
            ),
        decreases n - k,
    {
        let key = keys[k];
        if key.just_pressed || (key.held_long && finished) {
            if let Some(direction) = directions[k].direction() {
                finished = false;
                timer_reset = true;
                action = Some(ActionType::MoveDelta(direction));
            }
        }
        k = k + 1;
    }
    (action, timer_reset)
}

/// Every movement action moves, each in its own direction, and waiting does
/// not move.
pub proof fn lemma_movement_actions_move()
    ensures
        forall|k: int| 0 <= k < 8 ==> (#[trigger] action_direction(movement_actions()[k])) is Some,
        forall|i: int, j: int|
            0 <= i < j < 8 ==> #[trigger] action_direction(movement_actions()[i])
                != #[trigger] action_direction(movement_actions()[j]),
        action_direction(PlayerAction::Wait) is None,
{
}

} // verus!
