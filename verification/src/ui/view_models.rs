//! View models for rendering chess moves and variations.
//!
//! These types carry game state to the display as plain values.

use vstd::prelude::*;
use crate::domain::move_tree::MoveNodeId;

verus! {

/// Display data for a move in the main line.
#[derive(Clone, Debug)]
pub struct MainLineMoveDisplay {
    pub node_id: MoveNodeId,
    pub move_num: usize,
    pub is_black: bool,
    pub san: String,
    /// Whether there are alternative moves (siblings) to this move.
    pub has_sibling_variations: bool,
    /// Whether this move gives check.
    pub is_check: bool,
    /// Whether this move gives checkmate.
    pub is_checkmate: bool,
}

/// The mathematical content of a [`MainLineMoveDisplay`].
pub struct MainLineMoveView {
    pub node_id: MoveNodeId,
    pub move_num: usize,
    pub is_black: bool,
    pub san: Seq<char>,
    pub has_sibling_variations: bool,
    pub is_check: bool,
    pub is_checkmate: bool,
}

impl View for MainLineMoveDisplay {
    type V = MainLineMoveView;

    open spec fn view(&self) -> MainLineMoveView {
        MainLineMoveView {
            node_id: self.node_id,
            move_num: self.move_num,
            is_black: self.is_black,
            san: self.san@,
            has_sibling_variations: self.has_sibling_variations,
            is_check: self.is_check,
            is_checkmate: self.is_checkmate,
        }
    }
}

/// Display data for a single move within a variation.
#[derive(Clone, Debug)]
pub struct VariationMoveDisplay {
    pub node_id: MoveNodeId,
    pub move_num: usize,
    pub is_black: bool,
    pub san: String,
    /// Whether there are alternative moves (siblings) to this move within the variation.
    pub has_sibling_sub_variations: bool,
    /// Whether this move gives check.
    pub is_check: bool,
    /// Whether this move gives checkmate.
    pub is_checkmate: bool,
}

/// The mathematical content of a [`VariationMoveDisplay`].
pub struct VariationMoveView {
    pub node_id: MoveNodeId,
    pub move_num: usize,
    pub is_black: bool,
    pub san: Seq<char>,
    pub has_sibling_sub_variations: bool,
    pub is_check: bool,
    pub is_checkmate: bool,
}

impl View for VariationMoveDisplay {
    type V = VariationMoveView;

    open spec fn view(&self) -> VariationMoveView {
        VariationMoveView {
            node_id: self.node_id,
            move_num: self.move_num,
            is_black: self.is_black,
            san: self.san@,
            has_sibling_sub_variations: self.has_sibling_sub_variations,
            is_check: self.is_check,
            is_checkmate: self.is_checkmate,
        }
    }
}

/// The mathematical content of a list of variation moves.
pub open spec fn variation_move_views(moves: Seq<VariationMoveDisplay>) -> Seq<VariationMoveView> {
    moves.map_values(|m: VariationMoveDisplay| m@)
}

/// Display data for a complete variation line.
#[derive(Clone, Debug)]
pub struct VariationDisplay {
    pub moves: Vec<VariationMoveDisplay>,
}

impl View for VariationDisplay {
    type V = Seq<VariationMoveView>;

    open spec fn view(&self) -> Seq<VariationMoveView> {
        variation_move_views(self.moves@)
    }
}

} // verus!
