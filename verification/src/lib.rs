//! Decision logic of a chat-controlled tower defence player: vote
//! validation, vote tallying, the phase machine that turns a winning vote
//! into a game action, screen locations of the play grid, and the
//! configuration file's line format.

pub mod actions;
pub mod ballot;
pub mod config;
pub mod location;
pub mod round_timer;
pub mod text;
pub mod voting;
