//! The rules of two small arcade games.
//!
//! Most of the crate is the physics of a side-scrolling platformer. Every
//! coordinate, size and velocity there is an integer count of sub-pixel
//! units (see [`units`]), so each rule is exact arithmetic with no
//! rounding. One simulation tick steers the player from the directional
//! intent, moves it by its velocity, applies gravity and then resolves
//! contacts against the static terrain, in that order.
//!
//! The module [`snake`] holds the grid rules of a snake game.

pub mod units;
pub mod geometry;
pub mod body;
pub mod resolve;
pub mod level;
pub mod world;
pub mod snake;
