//! What the display shows, as plain values.

pub mod assets;
pub mod display;
pub mod theme;
pub mod view_models;
pub mod views;
