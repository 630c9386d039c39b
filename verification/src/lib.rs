//! Core simulation library for an ocean survival/extraction game.
//!
//! The simulation works in fixed-point integer arithmetic: lengths in
//! millimetres, velocities in millimetres per second, times in microseconds,
//! and dimensionless tuning constants scaled by one thousand. Every quantity
//! is an `i64`, so each step of the dynamics is an exact, fully specified
//! function of the previous state.

pub mod character;
pub mod dynamics;
pub mod game_state;
pub mod geom;
pub mod interaction;
pub mod ocean;
pub mod oxygen;
pub mod shapes;
pub mod ship;
pub mod sim;
pub mod submersible;
pub mod trig;
pub mod units;
pub mod winch;
