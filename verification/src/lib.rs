//! Turn scheduling, actor action queues, grid geometry, level generation and
//! AI decision rules of the "Echos in the Dark" roguelike, with their
//! contracts proved by Verus.

pub mod action;
pub mod ai;
pub mod behavior;
pub mod gamemap;
pub mod gen_config;
pub mod pathfinding;
pub mod player;
pub mod position;
pub mod procgen;
pub mod rng;
pub mod spawning;
pub mod text;
pub mod tile;
pub mod turn_actor;
pub mod turn_manager;
pub mod turn_processor;
pub mod turn_queue;
