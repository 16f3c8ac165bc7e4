//! Pure chess domain types and utilities.
//!
//! The rules of chess are those of the `shakmaty` crate. Its plain enums are
//! declared to the verifier as they are, so that verified code can match on
//! them; a position is carried as an opaque value, and what the crate
//! computes from one is reached through the trusted functions of this
//! module, each of which names the function it calls.

use shakmaty::san::San;
use shakmaty::Piece as SPiece;
use shakmaty::{Chess, Color, File, Move, Position, Rank, Role, Square};
use vstd::prelude::*;

verus! {

/// `shakmaty::Role`, the role of a piece; the verifier reads its variants
/// from the crate.
#[verifier::external_type_specification]
pub struct ExRole(Role);

/// `shakmaty::Color`, the colour of a side; the verifier reads its variants
/// from the crate.
#[verifier::external_type_specification]
pub struct ExColor(Color);

/// `shakmaty::Piece`, a colour and a role; the verifier reads its two public
/// fields from the crate.
#[verifier::external_type_specification]
pub struct ExPiece(SPiece);

/// `shakmaty::File`, a file of the board, `A` to `H`; the verifier reads its
/// variants from the crate.
#[verifier::external_type_specification]
pub struct ExFile(File);

/// `shakmaty::Rank`, a rank of the board, `First` to `Eighth`; the verifier
/// reads its variants from the crate.
#[verifier::external_type_specification]
pub struct ExRank(Rank);

/// `shakmaty::Square`, a square of the board; the verifier reads its
/// variants from the crate.
#[verifier::external_type_specification]
pub struct ExSquare(Square);

/// `shakmaty::Move`, a move with the squares and roles it names; the
/// verifier reads its variants and their fields from the crate.
#[verifier::external_type_specification]
pub struct ExMove(Move);

/// `shakmaty::Chess`, a position of standard chess. Its fields are private:
/// the verifier sees nothing inside a position.
#[verifier::external_type_specification]
#[verifier::external_body]
pub struct ExChess(Chess);

/// The number of a file, 0 for `A` to 7 for `H`.
pub open spec fn file_index(file: File) -> int {
    match file {
        File::A => 0,
        File::B => 1,
        File::C => 2,
        File::D => 3,
        File::E => 4,
        File::F => 5,
        File::G => 6,
        File::H => 7,
    }
}

/// The number of a rank, 0 for the first to 7 for the eighth.
pub open spec fn rank_index(rank: Rank) -> int {
    match rank {
        Rank::First => 0,
        Rank::Second => 1,
        Rank::Third => 2,
        Rank::Fourth => 3,
        Rank::Fifth => 4,
        Rank::Sixth => 5,
        Rank::Seventh => 6,
        Rank::Eighth => 7,
    }
}

/// The file with the given number; `H` for every number above 6.
pub open spec fn file_at(index: int) -> File {
    if index <= 0 {
        File::A
    } else if index == 1 {
        File::B
    } else if index == 2 {
        File::C
    } else if index == 3 {
        File::D
    } else if index == 4 {
        File::E
    } else if index == 5 {
        File::F
    } else if index == 6 {
        File::G
    } else {
        File::H
    }
}

/// The rank with the given number; the eighth for every number above 6.
pub open spec fn rank_at(index: int) -> Rank {
    if index <= 0 {
        Rank::First
    } else if index == 1 {
        Rank::Second
    } else if index == 2 {
        Rank::Third
    } else if index == 3 {
        Rank::Fourth
    } else if index == 4 {
        Rank::Fifth
    } else if index == 5 {
        Rank::Sixth
    } else if index == 6 {
        Rank::Seventh
    } else {
        Rank::Eighth
    }
}

/// The square on the given file and rank.
pub uninterp spec fn square_at(file: File, rank: Rank) -> Square;

/// The file of a square.
pub uninterp spec fn square_file(square: Square) -> File;

/// The rank of a square.
pub uninterp spec fn square_rank(square: Square) -> Rank;

/// The piece that stands on a square of a position, if any.
pub uninterp spec fn board_piece(position: Chess, square: Square) -> Option<SPiece>;

/// The side that is to move in a position.
pub uninterp spec fn side_to_move(position: Chess) -> Color;

/// The legal moves of a position, in the order in which the rules engine
/// generates them.
pub uninterp spec fn legal_moves_of(position: Chess) -> Seq<Move>;

/// The position that a move leads to, if the move is legal.
pub uninterp spec fn position_after(position: Chess, m: Move) -> Option<Chess>;

/// A move in standard algebraic notation, without a check suffix.
pub uninterp spec fn san_text(position: Chess, m: Move) -> Seq<char>;

/// Whether the side to move is in check.
pub uninterp spec fn in_check(position: Chess) -> bool;

/// Whether the side to move is checkmated.
pub uninterp spec fn in_checkmate(position: Chess) -> bool;

/// Trusted: `shakmaty::File::new`, which gives the file of the given number
/// and panics on a number above 7.
pub assume_specification[ File::new ](index: u32) -> (file: File)
    requires
        index < 8,
    ensures
        file == file_at(index as int),
;

/// Trusted: `shakmaty::Rank::new`, which gives the rank of the given number
/// and panics on a number above 7.
pub assume_specification[ Rank::new ](index: u32) -> (rank: Rank)
    requires
        index < 8,
    ensures
        rank == rank_at(index as int),
;

/// Trusted: `shakmaty::Square::from_coords`, the square on the given file
/// and rank. Its file and rank are the given ones.
pub assume_specification[ Square::from_coords ](file: File, rank: Rank) -> (square: Square)
    ensures
        square == square_at(file, rank),
        square_file(square) == file,
        square_rank(square) == rank,
;

/// Trusted: `shakmaty::Square::file`.
pub assume_specification[ Square::file ](square: Square) -> (file: File)
    ensures
        file == square_file(square),
;

/// Trusted: `shakmaty::Square::rank`.
pub assume_specification[ Square::rank ](square: Square) -> (rank: Rank)
    ensures
        rank == square_rank(square),
;

/// Trusted: `==` of `shakmaty::Square`, which the crate derives for an enum
/// without fields: two squares are equal exactly if they are the same.
pub assume_specification[ <Square as PartialEq>::eq ](a: &Square, b: &Square) -> (same: bool)
    ensures
        same == (*a == *b),
;

/// Trusted: `Clone::clone` of `shakmaty::Chess`, which the crate derives. The
/// copy is the same position.
pub assume_specification[ <Chess as Clone>::clone ](position: &Chess) -> (copy: Chess)
    ensures
        copy == *position,
;

/// The role of the piece that stands on a file of the back rank when a
/// game begins.
pub open spec fn back_rank_role(file: File) -> Role {
    match file {
        File::A | File::H => Role::Rook,
        File::B | File::G => Role::Knight,
        File::C | File::F => Role::Bishop,
        File::D => Role::Queen,
        File::E => Role::King,
    }
}

/// The piece that stands on a square when a game begins.
pub open spec fn starting_piece(file: File, rank: Rank) -> Option<SPiece> {
    match rank {
        Rank::First => Some(SPiece { color: Color::White, role: back_rank_role(file) }),
        Rank::Second => Some(SPiece { color: Color::White, role: Role::Pawn }),
        Rank::Seventh => Some(SPiece { color: Color::Black, role: Role::Pawn }),
        Rank::Eighth => Some(SPiece { color: Color::Black, role: back_rank_role(file) }),
        _ => None,
    }
}

/// Whether a position is the one in which a game begins: every piece on its
/// square, and White to move.
pub open spec fn is_starting_position(position: Chess) -> bool {
    &&& side_to_move(position) == Color::White
    &&& forall|square: Square| #[trigger]
        board_piece(position, square) == starting_piece(square_file(square), square_rank(square))
}

/// The standard starting position.
///
/// Trusted: calls `shakmaty::Chess::default`, the initial position of any
/// regular chess game: White is to move, the pawns stand on the second and
/// the seventh rank, and the pieces behind them.
#[verifier::external_body]
pub(crate) fn starting_position() -> (position: Chess)
    ensures
        is_starting_position(position),
{
    Chess::default()
}

/// The piece on a square.
///
/// Trusted: calls `shakmaty::Board::piece_at` on the board of the position;
/// the result is a function of position and square.
#[verifier::external_body]
pub(crate) fn piece_on(position: &Chess, square: Square) -> (piece: Option<SPiece>)
    ensures
        piece == board_piece(*position, square),
{
    position.board().piece_at(square)
}

/// The side to move.
///
/// Trusted: calls `shakmaty::Position::turn`; the result is a function of
/// the position.
#[verifier::external_body]
pub(crate) fn turn_of(position: &Chess) -> (color: Color)
    ensures
        color == side_to_move(*position),
{
    position.turn()
}

/// The legal moves of a position.
///
/// Trusted: calls `shakmaty::Position::legal_moves` and hands the moves out
/// in the order of the list; the result is a function of the position.
#[verifier::external_body]
pub(crate) fn legal_moves(position: &Chess) -> (moves: Vec<Move>)
    ensures
        moves@ == legal_moves_of(*position),
{
    position.legal_moves().into_iter().collect()
}

/// Plays a move on a copy of the position.
///
/// Trusted: calls `shakmaty::Position::play`, which refuses a move that is
/// not legal; the result is a function of position and move.
#[verifier::external_body]
pub(crate) fn play(position: &Chess, m: Move) -> (next: Option<Chess>)
    ensures
        next == position_after(*position, m),
{
    position.clone().play(m).ok()
}

/// Writes a move in standard algebraic notation.
///
/// Trusted: calls `shakmaty::san::San::from_move` and prints the result; the
/// text is a function of position and move.
#[verifier::external_body]
pub(crate) fn san_of(position: &Chess, m: Move) -> (text: String)
    ensures
        text@ == san_text(*position, m),
{
    San::from_move(position, m).to_string()
}

/// Whether the side to move is in check.
///
/// Trusted: calls `shakmaty::Position::is_check`; the result is a function
/// of the position.
#[verifier::external_body]
pub(crate) fn is_check(position: &Chess) -> (check: bool)
    ensures
        check == in_check(*position),
{
    position.is_check()
}

/// Whether the side to move is checkmated.
///
/// Trusted: calls `shakmaty::Position::is_checkmate`; the result is a
/// function of the position.
#[verifier::external_body]
pub(crate) fn is_checkmate(position: &Chess) -> (mate: bool)
    ensures
        mate == in_checkmate(*position),
{
    position.is_checkmate()
}

#[derive(Clone, Copy, PartialEq, Eq, Debug)]
pub enum PieceKind {
    Pawn,
    Rook,
    Knight,
    Bishop,
    Queen,
    King,
}

#[derive(Clone, Copy, PartialEq, Eq, Debug)]
pub enum PieceColor {
    White,
    Black,
}

#[derive(Clone, Copy, Debug)]
pub struct Piece {
    pub kind: PieceKind,
    pub color: PieceColor,
}

/// The library's name for a role of the rules engine.
pub open spec fn kind_of(role: Role) -> PieceKind {
    match role {
        Role::Pawn => PieceKind::Pawn,
        Role::Knight => PieceKind::Knight,
        Role::Bishop => PieceKind::Bishop,
        Role::Rook => PieceKind::Rook,
        Role::Queen => PieceKind::Queen,
        Role::King => PieceKind::King,
    }
}

/// The library's name for a colour of the rules engine.
pub open spec fn color_of(color: Color) -> PieceColor {
    match color {
        Color::White => PieceColor::White,
        Color::Black => PieceColor::Black,
    }
}

/// The library's piece for a piece of the rules engine.
pub open spec fn piece_of(piece: SPiece) -> Piece {
    Piece { kind: kind_of(piece.role), color: color_of(piece.color) }
}

/// The square in the given row and column of the board as it is drawn, row
/// 0 being the eighth rank and column 0 the file `A`.
pub open spec fn square_on(row: int, col: int) -> Square {
    square_at(file_at(col), rank_at(7 - row))
}

/// Convert row/col (0-indexed, row 0 = rank 8) to shakmaty Square.
pub fn to_square(row: usize, col: usize) -> (square: Square)
    requires
        row < 8,
        col < 8,
    ensures
        square == square_on(row as int, col as int),
        file_index(square_file(square)) == col,
        rank_index(square_rank(square)) == 7 - row,
{
    let file = File::new(col as u32);
    let rank = Rank::new(7 - row as u32);  // row 0 = rank 8, row 7 = rank 1
    Square::from_coords(file, rank)
}

/// Convert shakmaty colour to our domain colour.
pub fn shakmaty_to_color(color: Color) -> (ours: PieceColor)
    ensures
        ours == color_of(color),
{
    match color {
        Color::White => PieceColor::White,
        Color::Black => PieceColor::Black,
    }
}

/// Convert shakmaty piece to our domain Piece.
pub fn shakmaty_to_piece(piece: SPiece) -> (ours: Piece)
    ensures
        ours == piece_of(piece),
{
    let kind = match piece.role {
        Role::Pawn => PieceKind::Pawn,
        Role::Knight => PieceKind::Knight,
        Role::Bishop => PieceKind::Bishop,
        Role::Rook => PieceKind::Rook,
        Role::Queen => PieceKind::Queen,
        Role::King => PieceKind::King,
    };
    let color = shakmaty_to_color(piece.color);
    Piece { kind, color }
}

} // verus!
