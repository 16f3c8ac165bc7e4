//! Names of the piece images.

use vstd::prelude::*;
use crate::domain::chess::{Piece, PieceColor, PieceKind};

verus! {

/// The word for a kind of piece in the name of its image.
pub open spec fn kind_word(kind: PieceKind) -> Seq<char> {
    match kind {
        PieceKind::Pawn => "pawn"@,
        PieceKind::Rook => "rook"@,
        PieceKind::Knight => "knight"@,
        PieceKind::Bishop => "bishop"@,
        PieceKind::Queen => "queen"@,
        PieceKind::King => "king"@,
    }
}

/// The word for a colour in the name of an image.
pub open spec fn color_word(color: PieceColor) -> Seq<char> {
    match color {
        PieceColor::White => "white"@,
        PieceColor::Black => "black"@,
    }
}

/// The path of the image of a piece: its kind and its colour, joined by a
/// hyphen, in the assets directory.
pub open spec fn svg_path_of(piece: Piece) -> Seq<char> {
    "assets/"@ + kind_word(piece.kind) + "-"@ + color_word(piece.color) + ".svg"@
}

/// Get the SVG asset path for a chess piece.
pub fn piece_svg_path(piece: &Piece) -> (path: &'static str)
    ensures
        path@ == svg_path_of(*piece),
{
    proof {
        reveal_strlit("assets/");
        reveal_strlit("-");
        reveal_strlit(".svg");
        reveal_strlit("white");
        reveal_strlit("black");
    }
    let path = match (piece.kind, piece.color) {
        (PieceKind::Pawn, PieceColor::White) => {
            proof {
                reveal_strlit("pawn");
                reveal_strlit("assets/pawn-white.svg");
            }
            "assets/pawn-white.svg"
        },
        (PieceKind::Pawn, PieceColor::Black) => {
            proof {
                reveal_strlit("pawn");
                reveal_strlit("assets/pawn-black.svg");
            }
            "assets/pawn-black.svg"
        },
        (PieceKind::Rook, PieceColor::White) => {
            proof {
                reveal_strlit("rook");
                reveal_strlit("assets/rook-white.svg");
            }
            "assets/rook-white.svg"
        },
        (PieceKind::Rook, PieceColor::Black) => {
            proof {
                reveal_strlit("rook");
                reveal_strlit("assets/rook-black.svg");
            }
            "assets/rook-black.svg"
        },
        (PieceKind::Knight, PieceColor::White) => {
            proof {
                reveal_strlit("knight");
                reveal_strlit("assets/knight-white.svg");
            }
            "assets/knight-white.svg"
        },
        (PieceKind::Knight, PieceColor::Black) => {
            proof {
                reveal_strlit("knight");
                reveal_strlit("assets/knight-black.svg");
            }
            "assets/knight-black.svg"
        },
        (PieceKind::Bishop, PieceColor::White) => {
            proof {
                reveal_strlit("bishop");
                reveal_strlit("assets/bishop-white.svg");
            }
            "assets/bishop-white.svg"
        },
        (PieceKind::Bishop, PieceColor::Black) => {
            proof {
                reveal_strlit("bishop");
                reveal_strlit("assets/bishop-black.svg");
            }
            "assets/bishop-black.svg"
        },
        (PieceKind::Queen, PieceColor::White) => {
            proof {
                reveal_strlit("queen");
                reveal_strlit("assets/queen-white.svg");
            }
            "assets/queen-white.svg"
        },
        (PieceKind::Queen, PieceColor::Black) => {
            proof {
                reveal_strlit("queen");
                reveal_strlit("assets/queen-black.svg");
            }
            "assets/queen-black.svg"
        },
        (PieceKind::King, PieceColor::White) => {
            proof {
                reveal_strlit("king");
                reveal_strlit("assets/king-white.svg");
            }
            "assets/king-white.svg"
        },
        (PieceKind::King, PieceColor::Black) => {
            proof {
                reveal_strlit("king");
                reveal_strlit("assets/king-black.svg");
            }
            "assets/king-black.svg"
        },
    };
    assert(path@ =~= svg_path_of(*piece));
    path
}

} // verus!
