//! Pieces, sides and the contents of a single square.

use vstd::prelude::*;

verus! {

/// The kind of a chess piece, independent of the side it belongs to.
#[derive(Clone, Copy, Debug, PartialEq, Eq, Hash, Structural)]
pub enum Piece {
    Pawn,
    Knight,
    Bishop,
    Rook,
    Queen,
    King,
}

/// One of the two sides. White's home row is rank 0 and its pawns advance
/// towards higher ranks; Black's home row is rank 7 and its pawns advance
/// towards lower ranks.
#[derive(Clone, Copy, Debug, PartialEq, Eq, Hash, Structural)]
pub enum Color {
    White,
    Black,
}

/// What a square holds: nothing, or one piece together with its side.
#[derive(Clone, Copy, Debug, PartialEq, Eq, Hash, Structural)]
pub enum Square {
    Empty,
    Occupied(Piece, Color),
}

impl Piece {
    /// The material value of a piece kind.
    pub open spec fn value(self) -> int {
        match self {
            Piece::Pawn => 1,
            Piece::Knight => 3,
            Piece::Bishop => 3,
            Piece::Rook => 5,
            Piece::Queen => 9,
            Piece::King => 0,
        }
    }
}

/// The largest material value any piece has: that of a queen.
pub open spec fn max_piece_value() -> int {
    9
}

impl Color {
    /// The other side.
    pub open spec fn opponent(self) -> Color {
        match self {
            Color::White => Color::Black,
            Color::Black => Color::White,
        }
    }

    /// The rank change of a single pawn advance for this side.
    pub open spec fn forward(self) -> int {
        match self {
            Color::White => 1,
            Color::Black => -1,
        }
    }

    /// The rank on which this side's pawns start.
    pub open spec fn pawn_rank(self) -> int {
        match self {
            Color::White => 1,
            Color::Black => 6,
        }
    }
}

impl Square {
    /// The occupant of the square, if there is one.
    pub open spec fn occupant(self) -> Option<(Piece, Color)> {
        match self {
            Square::Empty => None,
            Square::Occupied(piece, color) => Some((piece, color)),
        }
    }
}

/// Returns the material value of a piece kind.
pub fn piece_value(piece: Piece) -> (value: i32)
    ensures
        value == piece.value(),
{
    match piece {
        Piece::Pawn => 1,
        Piece::Knight => 3,
        Piece::Bishop => 3,
        Piece::Rook => 5,
        Piece::Queen => 9,
        Piece::King => 0,
    }
}

} // verus!
