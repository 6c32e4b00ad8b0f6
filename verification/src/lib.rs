//! Left-Center-Right: a verified simulator of the circular token-passing dice game.

pub mod config;
mod dice;
pub mod game;
pub mod invariants;
pub mod parallel;
pub mod roll;
pub mod simulate;
pub mod table;
pub mod tally;
