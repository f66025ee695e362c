//! Core rules of a turn-based dungeon crawler: procedural level generation
//! with a connectivity guarantee, entities with combat/AI/item facets, a
//! spell and item effect system, and the turn-order protocol between the
//! player and the monsters.  Rendering, input polling and field-of-view
//! computation are collaborators outside this crate: they are consumed
//! through plain data (commands, a visibility grid, targeting choices).
use vstd::prelude::*;

pub mod ai;
pub mod effects;
pub mod entity;
pub mod fov;
pub mod gen;
pub mod msg;
pub mod reach;
pub mod rng;
pub mod tiles;
pub mod turn;
pub mod world;

verus! {

/// Number of log lines kept; older entries are dropped.
pub const MSG_HEIGHT: usize = 6;

/// Tiles around the chosen tile that a fireball burns.
pub const FIREBALL_RADIUS: i32 = 3;

/// Hit points a fireball removes from everything in its radius.
pub const FIREBALL_DAMAGE: i32 = 12;

/// Farthest distance at which a confusion scroll can take a target.
pub const CONFUSE_RANGE: i32 = 8;

/// Turns a confused monster stumbles about before its old AI returns.
pub const CONFUSE_NUM_TURNS: i32 = 10;

/// Farthest distance at which a lightning bolt finds a target.
pub const LIGHTNING_RANGE: i32 = 5;

/// Hit points a lightning bolt removes.
pub const LIGHTNING_DAMAGE: i32 = 20;

/// Hit points a healing potion restores.
pub const HEAL_AMOUNT: i32 = 4;

/// Index of the player in the entity collection.
pub const PLAYER: usize = 0;

/// Most monsters a single room is populated with.
pub const MAX_ROOM_MONSTERS: i32 = 3;

/// Most items a single room is populated with.
pub const MAX_ROOM_ITEMS: i32 = 2;

/// Most items the player can hold at once.
pub const INVENTORY_CAP: usize = 26;

/// Width of the tile grid.
pub const MAP_WIDTH: i32 = 80;

/// Height of the tile grid.
pub const MAP_HEIGHT: i32 = 43;

/// Largest width or height of a generated room, border included.
pub const ROOM_MAX_SIZE: i32 = 10;

/// Smallest width or height of a generated room, border included.
pub const ROOM_MIN_SIZE: i32 = 6;

/// Room candidates attempted per generated level.
pub const MAX_ROOMS: i32 = 30;

} // verus!
