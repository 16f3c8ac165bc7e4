//! Game state model: the move tree of a game and the moves that the rules
//! allow in the position being viewed.

use shakmaty::{Chess, File, Move, Rank, Role, Square};
use vstd::prelude::*;
use crate::domain::chess::{
    board_piece, color_of, is_starting_position, legal_moves, legal_moves_of, piece_of, piece_on,
    play, position_after, san_of, san_text, shakmaty_to_color, shakmaty_to_piece, side_to_move,
    square_at, square_file, square_on, square_rank, to_square, turn_of, Piece, PieceColor,
};
use crate::domain::move_tree::{MoveNodeId, MoveTree, MoveTreeView};

verus! {

/// The source and target of a move as a player makes it on the board: for
/// castling the king and the square it lands on, nothing for a drop.
pub open spec fn drag_of(m: Move) -> Option<(Square, Square)> {
    match m {
        Move::Normal { from, to, .. } => Some((from, to)),
        Move::EnPassant { from, to } => Some((from, to)),
        Move::Castle { king, rook } => Some(
            (
                king,
                square_at(
                    if square_file(rook) == File::H {
                        File::G
                    } else {
                        File::C
                    },
                    square_rank(rook),
                ),
            ),
        ),
        Move::Put { .. } => None,
    }
}

/// The first of `moves` that a player makes by dragging from `from` to `to`.
pub open spec fn first_dragged(moves: Seq<Move>, from: Square, to: Square) -> Option<Move>
    decreases moves.len(),
{
    if moves.len() == 0 {
        None
    } else if drag_of(moves[0]) == Some((from, to)) {
        Some(moves[0])
    } else {
        first_dragged(moves.skip(1), from, to)
    }
}

/// The move that is played for `m`: a pawn that reaches the first or the
/// eighth rank without naming a promotion becomes a queen.
pub open spec fn with_queen(m: Move) -> Move {
    match m {
        Move::Normal { role: Role::Pawn, from, capture, to, promotion: None } => if square_rank(to)
            == Rank::Eighth || square_rank(to) == Rank::First {
            Move::Normal { role: Role::Pawn, from, capture, to, promotion: Some(Role::Queen) }
        } else {
            m
        },
        _ => m,
    }
}

/// The move that is played when a piece is dragged from `from` to `to`: the
/// first of `moves` that is made by this drag, with a queen for a pawn that
/// reaches the last rank without naming a promotion.
pub fn select_move(moves: &[Move], from: Square, to: Square) -> (selected: Option<Move>)
    ensures
        selected == match first_dragged(moves@, from, to) {
            Some(m) => Some(with_queen(m)),
            None => None,
        },
{
    let ghost all = moves@;
    let n: usize = moves.len();
    let mut i: usize = 0;
    assert(all.skip(0) =~= all);
    while i < n
        invariant
            all == moves@,
            n == all.len(),
            i <= n,
            first_dragged(all, from, to) == first_dragged(all.skip(i as int), from, to),
        decreases n - i,
    {
        let m: Move = moves[i];
        proof {
            assert(all.skip(i as int)[0] == m);
            assert(all.skip(i as int).skip(1) =~= all.skip(i + 1));
        }
        let drag: Option<(Square, Square)> = match m {
            Move::Normal { from, to, .. } => Some((from, to)),
            Move::EnPassant { from, to } => Some((from, to)),
            Move::Castle { king, rook } => {
                // For castling, user drags king to destination (g1/g8 or c1/c8)
                let king_dest = match rook.file() {
                    File::H => Square::from_coords(File::G, rook.rank()),
                    _ => Square::from_coords(File::C, rook.rank()),
                };
                Some((king, king_dest))
            },
            Move::Put { .. } => None,
        };
        assert(drag == drag_of(m));
        if let Some((move_from, move_to)) = drag {
            if move_from == from && move_to == to {
                // For pawn promotion, auto-promote to queen
                let move_to_play: Move = match m {
                    Move::Normal { role: Role::Pawn, from, capture, to, promotion: None } => {
                        match to.rank() {
                            Rank::Eighth | Rank::First => Move::Normal {
                                role: Role::Pawn,
                                from,
                                capture,
                                to,
                                promotion: Some(Role::Queen),
                            },
                            _ => m,
                        }
                    },
                    _ => m,
                };
                assert(first_dragged(all.skip(i as int), from, to) == Some(m));
                return Some(move_to_play);
            }
        }
        i += 1;
    }
    None
}

/// The main game model containing all chess game state.
pub struct GameModel {
    /// The move tree containing all positions and variations.
    tree: MoveTree,
}

impl View for GameModel {
    type V = MoveTreeView;

    closed spec fn view(&self) -> MoveTreeView {
        self.tree@
    }
}

/// The position that is being viewed in a tree.
pub open spec fn viewed_position(tree: MoveTreeView) -> Chess {
    tree.nodes[tree.current_id as int].position
}

/// A game after the piece on `from` was dragged to `to`, and whether a move
/// was made. The first legal move that fits is played, and what it leads to
/// is added to the tree under its notation; without such a move, or where
/// the rules refuse the move with its promotion, nothing changes.
pub open spec fn after_drag(tree: MoveTreeView, from: Square, to: Square) -> (MoveTreeView, bool) {
    let position = viewed_position(tree);
    match first_dragged(legal_moves_of(position), from, to) {
        Some(m) => match position_after(position, with_queen(m)) {
            Some(next) => (tree.add_move(next, san_text(position, with_queen(m))).0, true),
            None => (tree, false),
        },
        None => (tree, false),
    }
}

impl GameModel {
    pub fn new() -> (game: GameModel)
        ensures
            game@.wf(),
            game@.nodes.len() == 1,
            game@.current_id == 0,
            game@.nodes[0].san is None,
            game@.nodes[0].children == Seq::<MoveNodeId>::empty(),
            is_starting_position(viewed_position(game@)),
    {
        GameModel { tree: MoveTree::new() }
    }

    /// Get the currently viewed position.
    pub fn current_position(&self) -> (position: &Chess)
        requires
            self@.wf(),
        ensures
            *position == viewed_position(self@),
    {
        &self.tree.current().position
    }

    /// Get the current node ID.
    pub fn current_node_id(&self) -> (id: MoveNodeId)
        ensures
            id == self@.current_id,
    {
        self.tree.current_id()
    }

    /// Get read-only access to the move tree (for display generation).
    pub fn tree(&self) -> (tree: &MoveTree)
        ensures
            tree@ == self@,
    {
        &self.tree
    }

    /// Check if we're at a leaf node (can add new moves freely).
    pub fn is_at_leaf(&self) -> (r: bool)
        requires
            self@.wf(),
        ensures
            r == (self@.nodes[self@.current_id as int].children.len() == 0),
    {
        self.tree.is_at_leaf()
    }

    /// Check if we're at the root (starting position).
    pub fn is_at_root(&self) -> (r: bool)
        ensures
            r == (self@.current_id == 0),
    {
        self.tree.is_at_root()
    }

    /// Navigate to a specific node by ID.
    pub fn go_to_node(&mut self, id: MoveNodeId) -> (moved: bool)
        ensures
            moved == (id < old(self)@.nodes.len()),
            final(self)@ == if moved {
                old(self)@.at(id)
            } else {
                old(self)@
            },
            old(self)@.wf() ==> final(self)@.wf(),
    {
        self.tree.go_to(id)
    }

    /// Go to the starting position.
    pub fn go_to_start(&mut self)
        ensures
            final(self)@ == old(self)@.at(0),
            old(self)@.wf() ==> final(self)@.wf(),
    {
        self.tree.go_to_root();
    }

    /// Go to the end of the main line.
    pub fn go_to_end(&mut self)
        requires
            old(self)@.wf(),
        ensures
            final(self)@.wf(),
            final(self)@ == old(self)@.at(old(self)@.line_from(old(self)@.current_id).last()),
    {
        self.tree.go_to_end();
    }

    /// Go back one move.
    pub fn go_back(&mut self)
        requires
            old(self)@.wf(),
        ensures
            final(self)@.wf(),
            final(self)@ == match old(self)@.parent(old(self)@.current_id) {
                Some(parent) => old(self)@.at(parent),
                None => old(self)@,
            },
    {
        self.tree.go_back();
    }

    /// Go forward one move (main line).
    pub fn go_forward(&mut self)
        requires
            old(self)@.wf(),
        ensures
            final(self)@.wf(),
            final(self)@ == match old(self)@.main_line_child(old(self)@.current_id) {
                Some(child) => old(self)@.at(child),
                None => old(self)@,
            },
    {
        self.tree.go_forward();
    }

    /// Get piece at row/col from the currently viewed position.
    pub fn piece_at(&self, row: usize, col: usize) -> (piece: Option<Piece>)
        requires
            self@.wf(),
            row < 8,
            col < 8,
        ensures
            piece == match board_piece(viewed_position(self@), square_on(row as int, col as int)) {
                Some(p) => Some(piece_of(p)),
                None => None,
            },
    {
        let sq = to_square(row, col);
        match piece_on(self.current_position(), sq) {
            Some(p) => Some(shakmaty_to_piece(p)),
            None => None,
        }
    }

    /// Try to make a move from one square to another. Returns true if successful.
    ///
    /// If the move already exists as a child of current node, navigates to it.
    /// Otherwise, creates a new variation and navigates to it.
    pub fn try_move(&mut self, from: (usize, usize), to: (usize, usize)) -> (moved: bool)
        requires
            old(self)@.wf(),
            old(self)@.nodes.len() < usize::MAX,
            from.0 < 8 && from.1 < 8 && to.0 < 8 && to.1 < 8,
        ensures
            final(self)@.wf(),
            (final(self)@, moved) == after_drag(
                old(self)@,
                square_on(from.0 as int, from.1 as int),
                square_on(to.0 as int, to.1 as int),
            ),
    {
        let position = self.current_position().clone();
        let from_sq = to_square(from.0, from.1);
        let to_sq = to_square(to.0, to.1);
        let moves = legal_moves(&position);
        match select_move(moves.as_slice(), from_sq, to_sq) {
            Some(move_to_play) => {
                // Get SAN notation
                let san = san_of(&position, move_to_play);

                // Apply the move
                match play(&position, move_to_play) {
                    Some(new_position) => {
                        // Add to tree (will navigate to existing or create new)
                        self.tree.add_move(new_position, san);
                        true
                    },
                    None => false,
                }
            },
            None => false,
        }
    }

    /// Get the turn for the currently viewed position.
    pub fn current_turn(&self) -> (turn: PieceColor)
        requires
            self@.wf(),
        ensures
            turn == color_of(side_to_move(viewed_position(self@))),
    {
        shakmaty_to_color(turn_of(self.current_position()))
    }

    /// Delete a move and all its descendants.
    /// If currently viewing the deleted move or a descendant, navigates to parent.
    pub fn delete_move(&mut self, node_id: MoveNodeId) -> (deleted: bool)
        requires
            old(self)@.wf(),
        ensures
            (final(self)@, deleted) == old(self)@.delete_node(node_id),
            final(self)@.wf(),
    {
        self.tree.delete_node(node_id)
    }

    /// Promote a variation to be the main line at its branch point.
    pub fn promote_variation(&mut self, node_id: MoveNodeId) -> (promoted: bool)
        requires
            old(self)@.wf(),
        ensures
            (final(self)@, promoted) == old(self)@.promote_variation(node_id),
            final(self)@.wf(),
    {
        self.tree.promote_variation(node_id)
    }

    /// Promote a variation to be the global main line (promotes at all branch points).
    pub fn promote_to_main_line(&mut self, node_id: MoveNodeId) -> (promoted: bool)
        requires
            old(self)@.wf(),
        ensures
            (final(self)@, promoted) == old(self)@.promote_to_main_line(node_id),
            final(self)@.wf(),
    {
        self.tree.promote_to_main_line(node_id)
    }
}

impl Default for GameModel {
    fn default() -> (game: GameModel)
        ensures
            game@.wf(),
            game@.nodes.len() == 1,
            game@.current_id == 0,
            game@.nodes[0].san is None,
            game@.nodes[0].children == Seq::<MoveNodeId>::empty(),
            is_starting_position(viewed_position(game@)),
    {
        GameModel::new()
    }
}

} // verus!
