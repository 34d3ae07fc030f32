//! Snakes and Ladders as a library: the board, the turn engine that applies the
//! rules of one roll, the sentences that tell what happened, and a game that
//! ties them together for a front end to show.
//!
//! The engine never throws the die and never draws anything. A front end
//! throws the die (or asks [`Game::roll_dice`] to), hands the value in, and
//! shows the state and the sentence that come back.

pub mod board;
pub mod dice;
pub mod engine;
pub mod game;
pub mod grid;
pub mod laws;
pub mod narration;
pub mod text;

pub use crate::board::{BoardConfig, ConfigError};
pub use crate::engine::{resolve_turn, MatchState, TurnError};
pub use crate::game::{Game, Screen};
pub use crate::grid::{Cell, CellColor};
