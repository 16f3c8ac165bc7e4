//! Display generation for the move list.
//!
//! This module transforms game state into display-ready view models.

use vstd::prelude::*;
use crate::domain::chess::{
    board_piece, color_of, in_check, in_checkmate, is_check, is_checkmate, piece_of,
    side_to_move, square_on, Piece, PieceColor,
};
use crate::domain::move_tree::{MoveNodeId, MoveTree, MoveTreeView};
use crate::models::game::{viewed_position, GameModel};
use crate::ui::view_models::{
    MainLineMoveDisplay, MainLineMoveView, VariationDisplay, VariationMoveDisplay,
    VariationMoveView,
};

verus! {

/// The number of the move that leads to node `id`, counted in full moves.
pub open spec fn move_number_of(tree: MoveTreeView, id: MoveNodeId) -> usize {
    ((tree.ply(id) + 1) / 2) as usize
}

/// Whether the move that leads to node `id` is a move of Black.
pub open spec fn is_black_move(tree: MoveTreeView, id: MoveNodeId) -> bool {
    tree.ply(id) > 0 && tree.ply(id) % 2 == 0
}

/// What the main line shows of node `id`: nothing of a node without a move.
pub open spec fn main_line_entry(tree: MoveTreeView, id: MoveNodeId) -> Option<MainLineMoveView> {
    if id < tree.nodes.len() {
        let node = tree.nodes[id as int];
        match node.san {
            Some(san) => Some(
                MainLineMoveView {
                    node_id: id,
                    move_num: move_number_of(tree, id),
                    is_black: is_black_move(tree, id),
                    san,
                    has_sibling_variations: match node.parent_id {
                        Some(parent) => parent < tree.nodes.len() && tree.nodes[parent as int].children.len()
                            > 1,
                        None => false,
                    },
                    is_check: in_check(node.position),
                    is_checkmate: in_checkmate(node.position),
                },
            ),
            None => None,
        }
    } else {
        None
    }
}

/// The main line as it is shown: one entry for every move from the root
/// along first children.
pub open spec fn main_line_shown(tree: MoveTreeView) -> Seq<MainLineMoveView> {
    tree.line_from(0).filter_map(|id: MoveNodeId| main_line_entry(tree, id))
}

/// What a variation shows of node `id`: nothing of a node without a move.
/// An entry is marked as having alternatives where the node is the first of
/// several children.
pub open spec fn variation_entry(tree: MoveTreeView, id: MoveNodeId) -> Option<VariationMoveView> {
    if id < tree.nodes.len() {
        let node = tree.nodes[id as int];
        match node.san {
            Some(san) => Some(
                VariationMoveView {
                    node_id: id,
                    move_num: move_number_of(tree, id),
                    is_black: is_black_move(tree, id),
                    san,
                    has_sibling_sub_variations: match node.parent_id {
                        Some(parent) => parent < tree.nodes.len() && tree.nodes[parent as int].children.len()
                            > 1 && tree.nodes[parent as int].children[0] == id,
                        None => false,
                    },
                    is_check: in_check(node.position),
                    is_checkmate: in_checkmate(node.position),
                },
            ),
            None => None,
        }
    } else {
        None
    }
}

/// The line that starts at node `start` as it is shown.
pub open spec fn variation_shown(tree: MoveTreeView, start: MoveNodeId) -> Seq<VariationMoveView> {
    tree.line_from(start).filter_map(|id: MoveNodeId| variation_entry(tree, id))
}

/// The alternatives to the move that leads to node `id`: one line for every
/// child of its parent but the first, in their order.
pub open spec fn siblings_shown(tree: MoveTreeView, id: MoveNodeId) -> Seq<Seq<VariationMoveView>> {
    match tree.parent(id) {
        Some(parent) => if parent < tree.nodes.len() && tree.nodes[parent as int].children.len()
            > 1 {
            tree.nodes[parent as int].children.skip(1).map_values(
                |start: MoveNodeId| variation_shown(tree, start),
            )
        } else {
            Seq::empty()
        },
        None => Seq::empty(),
    }
}

/// What the board shows on the square with the given number, counted row by
/// row from the top left: row, column and piece, and whether the piece is
/// the one being dragged.
pub open spec fn cell_shown(tree: MoveTreeView, dragging_from: Option<(usize, usize)>, cell: int) -> Option<
    (usize, usize, Piece, bool),
> {
    let row = (cell / 8) as usize;
    let col = (cell % 8) as usize;
    match board_piece(viewed_position(tree), square_on(row as int, col as int)) {
        Some(p) => Some((row, col, piece_of(p), dragging_from == Some((row, col)))),
        None => None,
    }
}

/// The pieces that the board shows, row by row from the top left.
pub open spec fn pieces_shown(tree: MoveTreeView, dragging_from: Option<(usize, usize)>) -> Seq<
    (usize, usize, Piece, bool),
> {
    Seq::new(64, |cell: int| cell).filter_map(|cell: int| cell_shown(tree, dragging_from, cell))
}

/// Collect only pieces that exist with their positions, each with a mark
/// for the piece that is being dragged.
pub fn board_pieces(game: &GameModel, dragging_from: Option<(usize, usize)>) -> (pieces: Vec<
    (usize, usize, Piece, bool),
>)
    requires
        game@.wf(),
    ensures
        pieces@ == pieces_shown(game@, dragging_from),
{
    let mut pieces: Vec<(usize, usize, Piece, bool)> = Vec::new();
    let ghost cells = Seq::new(64, |cell: int| cell);
    let ghost shown = |cell: int| cell_shown(game@, dragging_from, cell);
    let mut row: usize = 0;
    assert(cells.take(0) =~= Seq::<int>::empty());
    while row < 8
        invariant
            game@.wf(),
            row <= 8,
            cells == Seq::new(64, |cell: int| cell),
            shown == |cell: int| cell_shown(game@, dragging_from, cell),
            pieces@ == cells.take(row * 8).filter_map(shown),
        decreases 8 - row,
    {
        let mut col: usize = 0;
        while col < 8
            invariant
                game@.wf(),
                row < 8,
                col <= 8,
                cells == Seq::new(64, |cell: int| cell),
                shown == |cell: int| cell_shown(game@, dragging_from, cell),
                pieces@ == cells.take(row * 8 + col).filter_map(shown),
            decreases 8 - col,
        {
            let ghost cell = row * 8 + col;
            let ghost before = pieces@;
            proof {
                assert(cells.take(cell + 1).drop_last() =~= cells.take(cell as int));
                assert(cells.take(cell + 1).last() == cell);
                assert(cell / 8 == row && cell % 8 == col);
            }
            if let Some(piece) = game.piece_at(row, col) {
                let is_being_dragged = match dragging_from {
                    Some((r, c)) => r == row && c == col,
                    None => false,
                };
                pieces.push((row, col, piece, is_being_dragged));
                assert(pieces@ =~= before + seq![(row, col, piece, is_being_dragged)]);
            }
            col += 1;
        }
        row += 1;
    }
    assert(cells.take(64) =~= cells);
    pieces
}

/// The piece that a player picks up on a square: the piece that stands
/// there, if it belongs to the side that is to move.
pub fn piece_to_drag(game: &GameModel, row: usize, col: usize) -> (picked: Option<Piece>)
    requires
        game@.wf(),
        row < 8,
        col < 8,
    ensures
        picked == match board_piece(viewed_position(game@), square_on(row as int, col as int)) {
            Some(p) => if piece_of(p).color == color_of(side_to_move(viewed_position(game@))) {
                Some(piece_of(p))
            } else {
                None
            },
            None => None,
        },
{
    match game.piece_at(row, col) {
        Some(piece) => {
            let mine = match (piece.color, game.current_turn()) {
                (PieceColor::White, PieceColor::White) => true,
                (PieceColor::Black, PieceColor::Black) => true,
                _ => false,
            };
            if mine {
                Some(piece)
            } else {
                None
            }
        },
        None => None,
    }
}

/// The mathematical content of a list of main line moves.
pub open spec fn main_line_views(moves: Seq<MainLineMoveDisplay>) -> Seq<MainLineMoveView> {
    moves.map_values(|m: MainLineMoveDisplay| m@)
}

/// The mathematical content of a list of variations.
pub open spec fn variation_views(lines: Seq<VariationDisplay>) -> Seq<Seq<VariationMoveView>> {
    lines.map_values(|v: VariationDisplay| v@)
}

/// Get the main line for display from a game model.
/// Returns a list of moves with info about sibling variations.
pub fn main_line_display(game: &GameModel) -> (shown: Vec<MainLineMoveDisplay>)
    requires
        game@.wf(),
    ensures
        main_line_views(shown@) == main_line_shown(game@),
{
    let tree = game.tree();
    let main_line = tree.main_line();
    let mut result: Vec<MainLineMoveDisplay> = Vec::new();
    let ghost t = tree@;
    let ghost line = main_line@;
    let ghost entry = |id: MoveNodeId| main_line_entry(t, id);
    let n: usize = main_line.len();
    let mut k: usize = 0;
    assert(line.take(0) =~= Seq::<MoveNodeId>::empty());
    while k < n
        invariant
            t == tree@,
            t.wf(),
            line == main_line@,
            n == line.len(),
            k <= n,
            entry == |id: MoveNodeId| main_line_entry(t, id),
            main_line_views(result@) == line.take(k as int).filter_map(entry),
        decreases n - k,
    {
        let node_id: usize = main_line[k];
        let ghost before = result@;
        proof {
            assert(line.take(k + 1).drop_last() =~= line.take(k as int));
            assert(line.take(k + 1).last() == node_id);
        }
        if let Some(node) = tree.get(node_id) {
            if let Some(san) = &node.san {
                let (move_num, is_black) = node.move_number(tree);

                // Check if this move has sibling variations (other children of parent)
                let sibling_variations: usize = if let Some(parent_id) = node.parent_id {
                    if let Some(parent) = tree.get(parent_id) {
                        parent.variation_children().len()
                    } else {
                        0
                    }
                } else {
                    0
                };

                // Check if this move gives check or checkmate
                let is_check = is_check(&node.position);
                let is_checkmate = is_checkmate(&node.position);

                let shown = MainLineMoveDisplay {
                    node_id,
                    move_num,
                    is_black,
                    san: san.clone(),
                    has_sibling_variations: sibling_variations > 0,
                    is_check,
                    is_checkmate,
                };
                assert(Some(shown@) == main_line_entry(t, node_id));
                result.push(shown);
                assert(main_line_views(result@) =~= main_line_views(before) + seq![shown@]);
            }
        }
        k += 1;
    }
    assert(line.take(n as int) =~= line);
    result
}

/// Get sibling variations for a main line move.
/// Returns the variation lines that are alternatives to this move.
pub fn get_sibling_variations(game: &GameModel, node_id: MoveNodeId) -> (shown: Vec<
    VariationDisplay,
>)
    requires
        game@.wf(),
    ensures
        variation_views(shown@) == siblings_shown(game@, node_id),
{
    sibling_lines(game.tree(), node_id)
}

/// Get sibling sub-variations for a move within a variation line.
/// These are the alternatives to this move (other children of parent).
pub fn get_sibling_sub_variations(game: &GameModel, node_id: MoveNodeId) -> (shown: Vec<
    VariationDisplay,
>)
    requires
        game@.wf(),
    ensures
        variation_views(shown@) == siblings_shown(game@, node_id),
{
    sibling_lines(game.tree(), node_id)
}

/// The lines that start at the later children of the parent of `node_id`.
fn sibling_lines(tree: &MoveTree, node_id: MoveNodeId) -> (shown: Vec<VariationDisplay>)
    requires
        tree@.wf(),
    ensures
        variation_views(shown@) == siblings_shown(tree@, node_id),
{
    let mut variations: Vec<VariationDisplay> = Vec::new();
    assert(variation_views(variations@) =~= Seq::empty());
    let node = match tree.get(node_id) {
        Some(node) => node,
        None => {
            return variations;
        },
    };
    let parent_id: usize = match node.parent_id {
        Some(parent_id) => parent_id,
        None => {
            return variations;
        },
    };
    let parent = match tree.get(parent_id) {
        Some(parent) => parent,
        None => {
            return variations;
        },
    };

    // Get all children except the main line child
    let variation_ids = parent.variation_children();
    let ghost t = tree@;
    let ghost starts = variation_ids@;
    let ghost shown_of = |start: MoveNodeId| variation_shown(t, start);
    let n: usize = variation_ids.len();
    let mut k: usize = 0;
    while k < n
        invariant
            t == tree@,
            t.wf(),
            starts == variation_ids@,
            parent_id < t.nodes.len(),
            n > 0 ==> starts == t.nodes[parent_id as int].children.skip(1)
                && t.nodes[parent_id as int].children.len() == n + 1,
            n == starts.len(),
            k <= n,
            shown_of == |start: MoveNodeId| variation_shown(t, start),
            variation_views(variations@) == starts.take(k as int).map_values(shown_of),
        decreases n - k,
    {
        let var_start_id: usize = variation_ids[k];
        let ghost before = variations@;
        assert(t.nodes[parent_id as int].children[k + 1] == var_start_id);
        if tree.get(var_start_id).is_some() {
            let line = collect_variation_line(tree, var_start_id);
            let variation = VariationDisplay { moves: line };
            variations.push(variation);
            assert(variation_views(variations@) =~= variation_views(before).push(variation@));
        }
        assert(starts.take(k + 1).map_values(shown_of) =~= starts.take(k as int).map_values(
            shown_of,
        ).push(shown_of(var_start_id)));
        k += 1;
    }
    assert(starts.take(n as int) =~= starts);
    variations
}

/// Collect moves in a variation line (following main line from start).
fn collect_variation_line(tree: &MoveTree, start_id: MoveNodeId) -> (shown: Vec<
    VariationMoveDisplay,
>)
    requires
        tree@.wf(),
    ensures
        crate::ui::view_models::variation_move_views(shown@) == variation_shown(tree@, start_id),
{
    let mut moves: Vec<VariationMoveDisplay> = Vec::new();
    let mut current_id: usize = start_id;
    let ghost t = tree@;
    let ghost entry = |id: MoveNodeId| variation_entry(t, id);
    let ghost done = Seq::<MoveNodeId>::empty();
    proof {
        assert(done + t.line_from(current_id) =~= t.line_from(start_id));
    }
    loop
        invariant_except_break
            done + t.line_from(current_id) == t.line_from(start_id),
            crate::ui::view_models::variation_move_views(moves@) == done.filter_map(entry),
        invariant
            t == tree@,
            t.wf(),
            entry == |id: MoveNodeId| variation_entry(t, id),
        ensures
            crate::ui::view_models::variation_move_views(moves@) == t.line_from(start_id).filter_map(
                entry,
            ),
        decreases t.nodes.len() - current_id,
    {
        let ghost before = moves@;
        let ghost line = t.line_from(current_id);
        let ghost next_done = done.push(current_id);
        proof {
            assert(next_done.drop_last() =~= done);
            assert(next_done.last() == current_id);
        }
        let node = match tree.get(current_id) {
            Some(node) => node,
            None => {
                proof {
                    assert(line =~= seq![current_id]);
                    assert(done + line =~= next_done);
                    assert(variation_entry(t, current_id) is None);
                }
                break;
            },
        };
        if let Some(san) = &node.san {
            let (move_num, is_black) = node.move_number(tree);

            // Check if this move has sibling sub-variations
            let has_sibling_sub_variations = match node.parent_id {
                Some(pid) => match tree.get(pid) {
                    Some(parent) => parent.variation_children().len() > 0
                        && parent.main_line_child() == Some(current_id),
                    None => false,
                },
                None => false,
            };

            // Check if this move gives check or checkmate
            let is_check = is_check(&node.position);
            let is_checkmate = is_checkmate(&node.position);

            let shown = VariationMoveDisplay {
                node_id: current_id,
                move_num,
                is_black,
                san: san.clone(),
                has_sibling_sub_variations,
                is_check,
                is_checkmate,
            };
            assert(Some(shown@) == variation_entry(t, current_id));
            moves.push(shown);
            assert(crate::ui::view_models::variation_move_views(moves@)
                =~= crate::ui::view_models::variation_move_views(before) + seq![shown@]);
        }
        assert(crate::ui::view_models::variation_move_views(moves@) == next_done.filter_map(entry));

        // Follow main line continuation
        match node.main_line_child() {
            Some(child_id) => {
                proof {
                    assert(line =~= seq![current_id] + t.line_from(child_id));
                    assert(done + line =~= next_done + t.line_from(child_id));
                    done = next_done;
                }
                current_id = child_id;
            },
            None => {
                proof {
                    assert(line =~= seq![current_id]);
                    assert(done + line =~= next_done);
                }
                break;
            },
        }
    }
    moves
}

} // verus!
