//! State and texts of the views.

pub mod board_view;
pub mod engine_pane;
pub mod move_list;
