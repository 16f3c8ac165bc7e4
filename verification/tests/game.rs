use chess_core::domain::chess::{
    shakmaty_to_color, shakmaty_to_piece, to_square, PieceColor, PieceKind,
};
use chess_core::models::game::{select_move, GameModel};
use chess_core::ui::display::{get_sibling_sub_variations, get_sibling_variations, main_line_display};
use shakmaty::{Chess, Color, File, Move, Position, Rank, Role, Square};

// Rows count from the eighth rank down, columns from the file a.
const E2: (usize, usize) = (6, 4);
const E4: (usize, usize) = (4, 4);
const E7: (usize, usize) = (1, 4);
const E5: (usize, usize) = (3, 4);
const D2: (usize, usize) = (6, 3);
const D4: (usize, usize) = (4, 3);
const G1: (usize, usize) = (7, 6);
const F3: (usize, usize) = (5, 5);
const B8: (usize, usize) = (0, 1);
const C6: (usize, usize) = (2, 2);
const F1: (usize, usize) = (7, 5);
const C4: (usize, usize) = (4, 2);
const G8: (usize, usize) = (0, 6);
const F6: (usize, usize) = (2, 5);
const E1: (usize, usize) = (7, 4);

fn play_all(game: &mut GameModel, moves: &[((usize, usize), (usize, usize))]) {
    for (from, to) in moves {
        assert!(game.try_move(*from, *to), "{:?} to {:?}", from, to);
    }
}

fn sans(game: &GameModel) -> Vec<String> {
    main_line_display(game).into_iter().map(|m| m.san).collect()
}

#[test]
fn squares_count_rows_from_the_eighth_rank() {
    assert_eq!(to_square(0, 0), Square::A8);
    assert_eq!(to_square(0, 7), Square::H8);
    assert_eq!(to_square(7, 0), Square::A1);
    assert_eq!(to_square(7, 7), Square::H1);
    assert_eq!(to_square(6, 4), Square::E2);
    for row in 0..8usize {
        for col in 0..8usize {
            let square = to_square(row, col);
            assert_eq!(square.file(), File::new(col as u32));
            assert_eq!(square.rank(), Rank::new(7 - row as u32));
        }
    }
}

#[test]
fn pieces_keep_role_and_colour() {
    let roles = [
        (Role::Pawn, PieceKind::Pawn),
        (Role::Knight, PieceKind::Knight),
        (Role::Bishop, PieceKind::Bishop),
        (Role::Rook, PieceKind::Rook),
        (Role::Queen, PieceKind::Queen),
        (Role::King, PieceKind::King),
    ];
    let colors = [(Color::White, PieceColor::White), (Color::Black, PieceColor::Black)];
    for (role, kind) in roles {
        for (color, ours) in colors {
            let piece = shakmaty_to_piece(shakmaty::Piece { color, role });
            assert_eq!(piece.kind, kind);
            assert_eq!(piece.color, ours);
        }
    }
}

#[test]
fn new_game_shows_the_starting_position() {
    let game = GameModel::new();
    assert_eq!(game.current_node_id(), 0);
    assert!(game.is_at_root());
    assert!(game.is_at_leaf());
    assert_eq!(game.current_turn(), PieceColor::White);
    assert_eq!(game.current_position(), &Chess::default());
    let back = [
        PieceKind::Rook,
        PieceKind::Knight,
        PieceKind::Bishop,
        PieceKind::Queen,
        PieceKind::King,
        PieceKind::Bishop,
        PieceKind::Knight,
        PieceKind::Rook,
    ];
    for col in 0..8 {
        let piece = game.piece_at(0, col).unwrap();
        assert_eq!((piece.kind, piece.color), (back[col], PieceColor::Black));
        let piece = game.piece_at(1, col).unwrap();
        assert_eq!((piece.kind, piece.color), (PieceKind::Pawn, PieceColor::Black));
        let piece = game.piece_at(6, col).unwrap();
        assert_eq!((piece.kind, piece.color), (PieceKind::Pawn, PieceColor::White));
        let piece = game.piece_at(7, col).unwrap();
        assert_eq!((piece.kind, piece.color), (back[col], PieceColor::White));
        for row in 2..6 {
            assert!(game.piece_at(row, col).is_none());
        }
    }
    assert!(main_line_display(&game).is_empty());
    assert!(GameModel::default().is_at_root());
}

#[test]
fn a_legal_move_is_played_and_noted() {
    let mut game = GameModel::new();
    assert!(game.try_move(E2, E4));
    assert_eq!(game.current_node_id(), 1);
    assert_eq!(game.current_turn(), PieceColor::Black);
    assert!(game.piece_at(6, 4).is_none());
    assert_eq!(game.piece_at(4, 4).unwrap().kind, PieceKind::Pawn);
    let node = game.tree().get(1).unwrap();
    assert_eq!(node.san, Some("e4".to_string()));
    assert_eq!(node.parent_id, Some(0));
    assert_eq!(node.position.turn(), Color::Black);
    assert_eq!(game.tree().get(0).unwrap().position, Chess::default());
}

#[test]
fn a_move_that_the_rules_refuse_changes_nothing() {
    let mut game = GameModel::new();
    assert!(!game.try_move(E2, E5));
    assert!(!game.try_move(E7, E5));
    assert!(!game.try_move(E4, E5));
    assert!(!game.try_move(E1, G1));
    assert_eq!(game.current_node_id(), 0);
    assert!(game.is_at_leaf());
    assert_eq!(game.current_turn(), PieceColor::White);
}

#[test]
fn a_move_made_again_visits_the_same_node() {
    let mut game = GameModel::new();
    assert!(game.try_move(E2, E4));
    game.go_back();
    assert!(game.try_move(E2, E4));
    assert_eq!(game.current_node_id(), 1);
    game.go_to_start();
    assert!(game.try_move(D2, D4));
    assert_eq!(game.current_node_id(), 2);
    assert_eq!(game.tree().get(0).unwrap().children, vec![1, 2]);
}

#[test]
fn castling_is_made_by_dragging_the_king_two_squares() {
    let mut game = GameModel::new();
    play_all(&mut game, &[(E2, E4), (E7, E5), (G1, F3), (B8, C6), (F1, C4), (G8, F6)]);
    assert!(game.try_move(E1, G1));
    assert_eq!(sans(&game), vec!["e4", "e5", "Nf3", "Nc6", "Bc4", "Nf6", "O-O"]);
    assert_eq!(game.piece_at(7, 6).unwrap().kind, PieceKind::King);
    assert_eq!(game.piece_at(7, 5).unwrap().kind, PieceKind::Rook);
    assert!(game.piece_at(7, 7).is_none());
    assert!(game.piece_at(7, 4).is_none());
}

#[test]
fn castling_to_the_queen_side_lands_on_the_c_file() {
    let mut game = GameModel::new();
    // 1.d4 d5 2.Nc3 Nc6 3.Bf4 Bf5 4.Qd2 Qd7 5.O-O-O O-O-O
    play_all(
        &mut game,
        &[
            ((6, 3), (4, 3)),
            ((1, 3), (3, 3)),
            ((7, 1), (5, 2)),
            ((0, 1), (2, 2)),
            ((7, 2), (4, 5)),
            ((0, 2), (3, 5)),
            ((7, 3), (6, 3)),
            ((0, 3), (1, 3)),
            ((7, 4), (7, 2)),
            ((0, 4), (0, 2)),
        ],
    );
    let line = sans(&game);
    assert_eq!(line[8], "O-O-O");
    assert_eq!(line[9], "O-O-O");
    assert_eq!(game.piece_at(7, 2).unwrap().kind, PieceKind::King);
    assert_eq!(game.piece_at(7, 3).unwrap().kind, PieceKind::Rook);
    assert_eq!(game.piece_at(0, 2).unwrap().kind, PieceKind::King);
    assert_eq!(game.piece_at(0, 3).unwrap().kind, PieceKind::Rook);
}

#[test]
fn capturing_in_passing_is_a_drag_to_the_empty_square() {
    let mut game = GameModel::new();
    // 1.e4 a6 2.e5 d5 3.exd6
    play_all(
        &mut game,
        &[(E2, E4), ((1, 0), (2, 0)), (E4, E5), ((1, 3), (3, 3)), (E5, (2, 3))],
    );
    assert_eq!(sans(&game)[4], "exd6");
    assert!(game.piece_at(3, 3).is_none());
    assert_eq!(game.piece_at(2, 3).unwrap().color, PieceColor::White);
}

#[test]
fn a_pawn_that_reaches_the_last_rank_becomes_a_queen() {
    let mut game = GameModel::new();
    // 1.h4 g5 2.hxg5 h6 3.gxh6 Bg7 4.hxg7 Nf6 5.gxh8=Q+
    play_all(
        &mut game,
        &[
            ((6, 7), (4, 7)),
            ((1, 6), (3, 6)),
            ((4, 7), (3, 6)),
            ((1, 7), (2, 7)),
            ((3, 6), (2, 7)),
            ((0, 5), (1, 6)),
            ((2, 7), (1, 6)),
            ((0, 6), (2, 5)),
            ((1, 6), (0, 7)),
        ],
    );
    let shown = main_line_display(&game);
    assert_eq!(shown[8].san, "gxh8=Q");
    assert!(shown[8].is_check);
    assert!(!shown[8].is_checkmate);
    let queen = game.piece_at(0, 7).unwrap();
    assert_eq!((queen.kind, queen.color), (PieceKind::Queen, PieceColor::White));
}

#[test]
fn mate_is_shown_as_check_and_checkmate() {
    let mut game = GameModel::new();
    // 1.f3 e5 2.g4 Qh4#
    play_all(
        &mut game,
        &[((6, 5), (5, 5)), (E7, E5), ((6, 6), (4, 6)), ((0, 3), (4, 7))],
    );
    let shown = main_line_display(&game);
    assert_eq!(shown.len(), 4);
    assert_eq!(shown[3].san, "Qh4");
    assert!(shown[3].is_check);
    assert!(shown[3].is_checkmate);
    assert!(!shown[2].is_check);
    assert!(!shown[2].is_checkmate);
    // No move is left to the mated side.
    assert!(!game.try_move(E2, E4));
}

#[test]
fn main_line_display_numbers_the_moves() {
    let mut game = GameModel::new();
    play_all(&mut game, &[(E2, E4), (E7, E5), (G1, F3)]);
    game.go_to_start();
    assert!(game.try_move(D2, D4));
    let shown = main_line_display(&game);
    assert_eq!(shown.len(), 3);
    let rows: Vec<(usize, usize, bool, &str, bool)> = shown
        .iter()
        .map(|m| (m.node_id, m.move_num, m.is_black, m.san.as_str(), m.has_sibling_variations))
        .collect();
    assert_eq!(
        rows,
        vec![(1, 1, false, "e4", true), (2, 1, true, "e5", false), (3, 2, false, "Nf3", false)]
    );
}

#[test]
fn sibling_variations_are_the_later_children_of_the_parent() {
    let mut game = GameModel::new();
    play_all(&mut game, &[(E2, E4), (E7, E5), (G1, F3)]);
    game.go_to_start();
    play_all(&mut game, &[(D2, D4), ((1, 3), (3, 3))]);
    game.go_to_node(4);
    assert!(game.try_move(G8, F6));
    game.go_to_start();
    assert!(game.try_move(G1, F3));
    // Root: e4 (1), d4 (4), Nf3 (7). d4: d5 (5), Nf6 (6).
    let variations = get_sibling_variations(&game, 1);
    assert_eq!(variations.len(), 2);
    let first: Vec<(usize, &str, usize, bool, bool)> = variations[0]
        .moves
        .iter()
        .map(|m| (m.node_id, m.san.as_str(), m.move_num, m.is_black, m.has_sibling_sub_variations))
        .collect();
    assert_eq!(first, vec![(4, "d4", 1, false, false), (5, "d5", 1, true, true)]);
    let second: Vec<(usize, &str)> =
        variations[1].moves.iter().map(|m| (m.node_id, m.san.as_str())).collect();
    assert_eq!(second, vec![(7, "Nf3")]);

    let sub = get_sibling_sub_variations(&game, 5);
    assert_eq!(sub.len(), 1);
    assert_eq!(sub[0].moves.len(), 1);
    assert_eq!(sub[0].moves[0].san, "Nf6");
    assert_eq!(sub[0].moves[0].node_id, 6);

    // The same lines are shown from any child of the parent.
    assert_eq!(get_sibling_variations(&game, 4).len(), 2);
    assert!(get_sibling_variations(&game, 0).is_empty());
    assert!(get_sibling_variations(&game, 2).is_empty());
    assert!(get_sibling_variations(&game, 99).is_empty());
    assert!(get_sibling_sub_variations(&game, 3).is_empty());
}

#[test]
fn navigation_follows_the_tree() {
    let mut game = GameModel::new();
    play_all(&mut game, &[(E2, E4), (E7, E5), (G1, F3)]);
    game.go_back();
    assert_eq!(game.current_node_id(), 2);
    game.go_to_start();
    assert!(game.is_at_root());
    game.go_back();
    assert!(game.is_at_root());
    game.go_forward();
    assert_eq!(game.current_node_id(), 1);
    game.go_to_end();
    assert_eq!(game.current_node_id(), 3);
    game.go_forward();
    assert_eq!(game.current_node_id(), 3);
    assert!(game.go_to_node(2));
    assert!(!game.go_to_node(4));
    assert_eq!(game.current_node_id(), 2);
    assert_eq!(game.current_turn(), PieceColor::White);
}

#[test]
fn game_edits_reach_the_tree() {
    let mut game = GameModel::new();
    play_all(&mut game, &[(E2, E4), (E7, E5)]);
    game.go_to_start();
    play_all(&mut game, &[(D2, D4), ((1, 3), (3, 3))]);
    assert!(game.promote_variation(4));
    assert_eq!(sans(&game), vec!["d4", "d5"]);
    assert!(game.promote_to_main_line(2));
    assert_eq!(sans(&game), vec!["e4", "e5"]);
    assert!(game.delete_move(1));
    assert_eq!(sans(&game), vec!["d4", "d5"]);
    assert!(!game.delete_move(0));
    assert!(!game.promote_variation(0));
    assert!(!game.promote_to_main_line(9));
    assert_eq!(game.current_node_id(), 4);
    assert!(game.delete_move(3));
    assert_eq!(game.current_node_id(), 0);
}

#[test]
fn colours_are_converted() {
    assert_eq!(shakmaty_to_color(Color::White), PieceColor::White);
    assert_eq!(shakmaty_to_color(Color::Black), PieceColor::Black);
}

#[test]
fn the_first_move_that_fits_the_drag_is_selected() {
    let knight = Move::Normal {
        role: Role::Knight,
        from: Square::G1,
        capture: None,
        to: Square::F3,
        promotion: None,
    };
    let rook_promotion = Move::Normal {
        role: Role::Pawn,
        from: Square::E7,
        capture: None,
        to: Square::E8,
        promotion: Some(Role::Rook),
    };
    let queen_promotion = Move::Normal {
        role: Role::Pawn,
        from: Square::E7,
        capture: None,
        to: Square::E8,
        promotion: Some(Role::Queen),
    };
    let drop = Move::Put { role: Role::Queen, to: Square::F3 };
    let passing = Move::EnPassant { from: Square::E5, to: Square::D6 };
    let moves = [drop, knight, rook_promotion, queen_promotion, passing];
    assert_eq!(select_move(&moves, Square::G1, Square::F3), Some(knight));
    assert_eq!(select_move(&moves, Square::E7, Square::E8), Some(rook_promotion));
    assert_eq!(select_move(&moves, Square::E5, Square::D6), Some(passing));
    assert_eq!(select_move(&moves, Square::F3, Square::G1), None);
    assert_eq!(select_move(&moves, Square::G1, Square::H3), None);
    assert_eq!(select_move(&[], Square::G1, Square::F3), None);
    assert_eq!(select_move(&[drop], Square::F3, Square::F3), None);
}

#[test]
fn a_pawn_without_a_promotion_is_given_a_queen_on_the_last_rank() {
    let bare = |from, to, capture| Move::Normal {
        role: Role::Pawn,
        from,
        capture,
        to,
        promotion: None,
    };
    let queen = |from, to, capture| Move::Normal {
        role: Role::Pawn,
        from,
        capture,
        to,
        promotion: Some(Role::Queen),
    };
    let up = bare(Square::A7, Square::A8, None);
    let down = bare(Square::B2, Square::A1, Some(Role::Rook));
    let push = bare(Square::C6, Square::C7, None);
    let rook = Move::Normal {
        role: Role::Rook,
        from: Square::H7,
        capture: None,
        to: Square::H8,
        promotion: None,
    };
    let moves = [up, down, push, rook];
    assert_eq!(
        select_move(&moves, Square::A7, Square::A8),
        Some(queen(Square::A7, Square::A8, None))
    );
    assert_eq!(
        select_move(&moves, Square::B2, Square::A1),
        Some(queen(Square::B2, Square::A1, Some(Role::Rook)))
    );
    assert_eq!(select_move(&moves, Square::C6, Square::C7), Some(push));
    assert_eq!(select_move(&moves, Square::H7, Square::H8), Some(rook));
}

#[test]
fn castling_is_selected_by_the_square_the_king_lands_on() {
    let short = Move::Castle { king: Square::E1, rook: Square::H1 };
    let long = Move::Castle { king: Square::E1, rook: Square::A1 };
    let black_short = Move::Castle { king: Square::E8, rook: Square::H8 };
    let black_long = Move::Castle { king: Square::E8, rook: Square::A8 };
    let moves = [short, long, black_short, black_long];
    assert_eq!(select_move(&moves, Square::E1, Square::G1), Some(short));
    assert_eq!(select_move(&moves, Square::E1, Square::C1), Some(long));
    assert_eq!(select_move(&moves, Square::E8, Square::G8), Some(black_short));
    assert_eq!(select_move(&moves, Square::E8, Square::C8), Some(black_long));
    assert_eq!(select_move(&moves, Square::E1, Square::H1), None);
    assert_eq!(select_move(&moves, Square::E1, Square::A1), None);
    // A rook that does not stand on the h-file sends the king to the c-file.
    let odd = Move::Castle { king: Square::E1, rook: Square::F1 };
    assert_eq!(select_move(&[odd], Square::E1, Square::C1), Some(odd));
}
