//! Pure domain logic: text scanning, the UCI protocol codec and the move
//! tree of a game.

pub mod chess;
pub mod move_tree;
pub mod text;
pub mod uci;
