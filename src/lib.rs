//! Rules engine of a two-player, turn-based strategy game played on a grid.

pub mod actions;
pub mod board;
pub mod coordinates;
pub mod error;
pub mod game;
pub mod lemmas;
pub mod piece;
pub mod player;
pub mod tile;

pub use game::Game;
