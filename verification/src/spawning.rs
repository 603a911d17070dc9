use vstd::prelude::*;

use crate::action::ActionType;
use crate::turn_actor::{TurnActor, DEFAULT_MAX_QUEUED_ACTIONS, NORMAL_SPEED_MODIFIER};

verus! {

/// Defaults used for a spawned entity where its definition gives no value.
#[derive(Clone, Copy, Debug, PartialEq, Eq, Structural)]
pub struct EntitySpawnConfig {
    pub default_view_radius: u8,
    pub default_turn_speed: u32,
}

impl EntitySpawnConfig {
    /// Defaults for the player: view radius 8, turn speed 1000.
    pub fn player() -> (c: EntitySpawnConfig)
        ensures
            c.default_view_radius == 8,
            c.default_turn_speed == 1000,
    {
        EntitySpawnConfig { default_view_radius: 8, default_turn_speed: 1000 }
    }

    /// Defaults for AI entities: view radius 6, turn speed 1000.
    pub fn ai() -> (c: EntitySpawnConfig)
        ensures
            c.default_view_radius == 6,
            c.default_turn_speed == 1000,
    {
        EntitySpawnConfig { default_view_radius: 6, default_turn_speed: 1000 }
    }

    /// The turn actor of a spawned entity: a fresh live actor with the
    /// definition's speed, or the default speed when it gives none.
    pub fn turn_actor(&self, speed: Option<u32>) -> (a: TurnActor)
        ensures
            a.speed == (match speed {
                Some(s) => s,
                None => self.default_turn_speed,
            }),
            a.alive,
            a.actions@ == Seq::<ActionType>::empty(),
            a.forced_actions@ == Seq::<ActionType>::empty(),
            a.preferred_action is None,
            a.action_speed_modifier == NORMAL_SPEED_MODIFIER,
            a.max_queued_actions == DEFAULT_MAX_QUEUED_ACTIONS,
    {
        let s = match speed {
            Some(s) => s,
            None => self.default_turn_speed,
        };
        TurnActor::new(s)
    }

    /// The field-of-view radius of a spawned entity: the definition's, or the
    /// default when it gives none.
    pub fn view_radius(&self, radius: Option<u8>) -> (r: u8)
        ensures
            r == (match radius {
                Some(v) => v,
                None => self.default_view_radius,
            }),
    {
        match radius {
            Some(v) => v,
            None => self.default_view_radius,
        }
    }
}

} // verus!
