//! Application state models built on the domain layer.

pub mod engine;
pub mod game;
pub mod session;
