//! Texts of the move list panel.

use vstd::prelude::*;
use vstd::string::*;
use crate::domain::text::{decimal, push_decimal};

verus! {

/// A move as it is written in the list: its notation, followed by `#` for
/// checkmate or else by `+` for check.
pub open spec fn move_text_of(san: Seq<char>, is_check: bool, is_checkmate: bool) -> Seq<char> {
    if is_checkmate {
        san + "#"@
    } else if is_check {
        san + "+"@
    } else {
        san
    }
}

/// Build the display text of a move with check/checkmate symbols.
pub fn move_text(san: String, is_check: bool, is_checkmate: bool) -> (text: String)
    ensures
        text@ == move_text_of(san@, is_check, is_checkmate),
{
    let mut display_text = san;
    if is_checkmate {
        display_text.append("#");
    } else if is_check {
        display_text.append("+");
    }
    display_text
}

/// The number in front of a move: one dot after it for a move of White,
/// three for a move of Black.
pub open spec fn number_text_of(move_num: usize, is_black: bool) -> Seq<char> {
    if is_black {
        decimal(move_num as nat) + "..."@
    } else {
        decimal(move_num as nat) + "."@
    }
}

/// Build the move number that is shown in front of a move.
pub fn number_label(move_num: usize, is_black: bool) -> (text: String)
    ensures
        text@ == number_text_of(move_num, is_black),
{
    let mut text = String::new();
    push_decimal(&mut text, move_num as u64);
    if is_black {
        text.append("...");
    } else {
        text.append(".");
    }
    text
}

/// Whether a move of a variation is shown with its number: the first move
/// of the line and every move of White.
pub fn shows_number(index: usize, is_black: bool) -> (shown: bool)
    ensures
        shown == (index == 0 || !is_black),
{
    index == 0 || !is_black
}

/// The sign on the button that collapses or expands a variation.
pub fn collapse_symbol(is_collapsed: bool) -> (symbol: &'static str)
    ensures
        symbol@ == if is_collapsed {
            "+"@
        } else {
            "-"@
        },
{
    if is_collapsed {
        "+"
    } else {
        "-"
    }
}

} // verus!
