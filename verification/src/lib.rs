//! A turn-based dungeon engine on a grid: levels of rooms and tunnels,
//! fog of war, and turns in which the player acts and the monsters
//! answer.
//!
//! The engine draws nothing and reads no keys. It takes the player's
//! intent and the outcome of the field-of-view computation as values, and
//! hands back what happened and what there is to draw.
//!
//! - [`tile`], [`grid`], [`rect`], [`colour`]: the plain data.
//! - [`object`], [`monster`]: the objects and the rules of combat.
//! - [`carve`], [`reach`], [`dungeon`], [`random`]: level generation, and
//!   why its floor is always in one piece.
//! - [`fov`], [`render`]: what is lit, what has been seen, what to draw.
//! - [`world`], [`player`], [`ai`], [`turn`]: movement and the turn.
//! - [`game`]: setting a game up.

pub mod ai;
pub mod carve;
pub mod colour;
pub mod dungeon;
pub mod fov;
pub mod game;
pub mod grid;
pub mod monster;
pub mod object;
pub mod player;
pub mod random;
pub mod reach;
pub mod rect;
pub mod render;
pub mod tile;
pub mod turn;
pub mod world;
