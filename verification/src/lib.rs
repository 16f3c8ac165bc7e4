//! Core of a chess analysis board: the UCI codec and the engine session
//! state machine, the move tree of a game, and the values that the display
//! shows of both.

pub mod domain;
pub mod models;
pub mod ui;
