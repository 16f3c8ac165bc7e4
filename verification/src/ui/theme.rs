//! Theme colors of the chess board.

use vstd::prelude::*;

verus! {

// Board colors
pub const LIGHT_SQUARE: u32 = 0xEFD9B5;

pub const DARK_SQUARE: u32 = 0xB48764;

// Panel colors
pub const PANEL_BG: u32 = 0x2a2a2a;

pub const MOVE_LIST_BG: u32 = 0x1e1e1e;

pub const BORDER_COLOR: u32 = 0x4a4a4a;

pub const TEXT_PRIMARY: u32 = 0xffffff;

pub const TEXT_SECONDARY: u32 = 0x888888;

/// Get the color for a board square based on its position: light where row
/// and column add up to an even number, dark elsewhere.
pub fn square_color(row: usize, col: usize) -> (color: u32)
    ensures
        color == if (row + col) % 2 == 0 {
            LIGHT_SQUARE
        } else {
            DARK_SQUARE
        },
{
    if row % 2 == col % 2 {
        LIGHT_SQUARE
    } else {
        DARK_SQUARE
    }
}

} // verus!
