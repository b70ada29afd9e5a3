//! The board itself: the grid of squares with the capture score of each
//! side, and the one operation that changes it.

use vstd::prelude::*;
use crate::coordinate::{in_range, Coordinate};
use crate::error::MoveError;
use crate::piece::{max_piece_value, piece_value, Color, Piece, Square};
use crate::position::{
    lemma_capture_conserves, lemma_material_bounds, lemma_relocate_conserves, square_count,
    Position,
};

verus! {

/// The occupants that a grid of squares holds, rank by rank.
pub open spec fn layout(squares: [[Square; 8]; 8]) -> Map<(int, int), (Piece, Color)> {
    Map::new(
        |at: (int, int)| in_range(at) && squares[at.0][at.1] is Occupied,
        |at: (int, int)| squares[at.0][at.1].occupant().unwrap(),
    )
}

/// The most material that can ever be on a board and in the two scores
/// together: the most valuable piece on every square.
pub open spec fn material_limit() -> int {
    max_piece_value() * square_count()
}

/// A chess board with the capture score of each side. Pieces are never
/// created once a board is made: they move, or they leave the board and
/// their value goes to a score.
#[derive(Debug, PartialEq, Eq)]
pub struct Board {
    squares: [[Square; 8]; 8],
    white_score: u32,
    black_score: u32,
}

impl View for Board {
    type V = Position;

    closed spec fn view(&self) -> Position {
        Position {
            pieces: layout(self.squares),
            white_score: self.white_score as int,
            black_score: self.black_score as int,
        }
    }
}

impl Clone for Board {
    fn clone(&self) -> (copy: Board)
        ensures
            copy == *self,
    {
        proof {
            use_type_invariant(self);
        }
        Board {
            squares: self.squares,
            white_score: self.white_score,
            black_score: self.black_score,
        }
    }
}

impl Board {
    #[verifier::type_invariant]
    closed spec fn inv(&self) -> bool {
        self@.total() <= material_limit()
    }

    /// Sets up the standard starting layout, with both scores at zero.
    pub fn new() -> (board: Board)
        ensures
            board@ == Position::standard(),
    {
        let white_home = [
            Square::Occupied(Piece::Rook, Color::White),
            Square::Occupied(Piece::Knight, Color::White),
            Square::Occupied(Piece::Bishop, Color::White),
            Square::Occupied(Piece::Queen, Color::White),
            Square::Occupied(Piece::King, Color::White),
            Square::Occupied(Piece::Bishop, Color::White),
            Square::Occupied(Piece::Knight, Color::White),
            Square::Occupied(Piece::Rook, Color::White),
        ];
        let black_home = [
            Square::Occupied(Piece::Rook, Color::Black),
            Square::Occupied(Piece::Knight, Color::Black),
            Square::Occupied(Piece::Bishop, Color::Black),
            Square::Occupied(Piece::Queen, Color::Black),
            Square::Occupied(Piece::King, Color::Black),
            Square::Occupied(Piece::Bishop, Color::Black),
            Square::Occupied(Piece::Knight, Color::Black),
            Square::Occupied(Piece::Rook, Color::Black),
        ];
        let white_pawns = [Square::Occupied(Piece::Pawn, Color::White); 8];
        let black_pawns = [Square::Occupied(Piece::Pawn, Color::Black); 8];
        let empty = [Square::Empty; 8];
        let squares = [
            white_home,
            white_pawns,
            empty,
            empty,
            empty,
            empty,
            black_pawns,
            black_home,
        ];
        proof {
            assert(layout(squares) =~= Position::standard().pieces);
            lemma_material_bounds(Position::standard(), square_count());
        }
        Board { squares, white_score: 0, black_score: 0 }
    }

    /// Makes a board that holds exactly the given squares, `squares[rank][file]`,
    /// with both scores at zero.
    pub fn from_squares(squares: [[Square; 8]; 8]) -> (board: Board)
        ensures
            board@ == (Position { pieces: layout(squares), white_score: 0, black_score: 0 }),
    {
        proof {
            lemma_material_bounds(
                Position { pieces: layout(squares), white_score: 0, black_score: 0 },
                square_count(),
            );
        }
        Board { squares, white_score: 0, black_score: 0 }
    }

    /// Returns what stands on `at`: the piece and its side, or nothing for
    /// an empty square.
    pub fn occupant_at(&self, at: Coordinate) -> (occupant: Option<(Piece, Color)>)
        ensures
            occupant == self@.occupant(at@),
    {
        match self.squares[at.rank()][at.file()] {
            Square::Empty => None,
            Square::Occupied(piece, color) => Some((piece, color)),
        }
    }

    /// Returns the kind of piece on `at`, or nothing for an empty square.
    pub fn get_piece(&self, at: Coordinate) -> (piece: Option<Piece>)
        ensures
            piece == match self@.occupant(at@) {
                Some((piece, _)) => Some(piece),
                None => None,
            },
    {
        match self.squares[at.rank()][at.file()] {
            Square::Empty => None,
            Square::Occupied(piece, _) => Some(piece),
        }
    }

    /// Returns the capture score of `color`: the value of everything that
    /// side has taken.
    pub fn score(&self, color: Color) -> (score: u32)
        ensures
            score == self@.score(color),
    {
        match color {
            Color::White => self.white_score,
            Color::Black => self.black_score,
        }
    }

    /// Removes whatever stands on `at` and adds its value to the score of
    /// `captor`. Returns the piece removed, or nothing, with the board
    /// unchanged, where `at` was empty.
    pub fn take_piece(&mut self, at: Coordinate, captor: Color) -> (taken: Option<Piece>)
        ensures
            final(self)@ == old(self)@.capture(at@, captor),
            taken == match old(self)@.occupant(at@) {
                Some((piece, _)) => Some(piece),
                None => None,
            },
    {
        let rank = at.rank();
        let file = at.file();
        match self.squares[rank][file] {
            Square::Empty => {
                proof {
                    assert(self@.capture(at@, captor).pieces =~= self@.pieces);
                }
                None
            },
            Square::Occupied(piece, _) => {
                let value = piece_value(piece) as u32;
                let mut squares = self.squares;
                squares[rank][file] = Square::Empty;
                proof {
                    use_type_invariant(&*self);
                    self.lemma_view_wf();
                    lemma_capture_conserves(self@, at@, captor);
                    assert(layout(squares) =~= self@.capture(at@, captor).pieces);
                    lemma_material_bounds(self@.capture(at@, captor), square_count());
                }
                let white_score = self.white_score;
                let black_score = self.black_score;
                *self = match captor {
                    Color::White => Board { squares, white_score: white_score + value, black_score },
                    Color::Black => Board { squares, white_score, black_score: black_score + value },
                };
                Some(piece)
            },
        }
    }

    /// Relocates the occupant of `from` to `to`. Whatever stood on `to` is
    /// captured first and its value goes to the score of the mover's side;
    /// then the mover is set down on `to` and `from` is cleared. Whether
    /// the move is one the piece may make is not looked at, so a piece sent
    /// to its own square captures itself and leaves the board.
    ///
    /// Fails with `EmptyOrigin`, changing nothing, exactly where `from` is
    /// empty. `CaptureInconsistent` is never returned: an occupied square
    /// always gives up a piece.
    pub fn make_move(&mut self, from: Coordinate, to: Coordinate) -> (outcome: Result<(), MoveError>)
        ensures
            old(self)@.occupant(from@) is None ==> outcome == Err::<(), MoveError>(
                MoveError::EmptyOrigin,
            ) && *final(self) == *old(self),
            old(self)@.occupant(from@) is Some ==> outcome is Ok && final(self)@ == old(
                self,
            )@.relocate(from@, to@),
    {
        proof {
            use_type_invariant(&*self);
            self.lemma_view_wf();
        }
        let (piece, color) = match self.occupant_at(from) {
            Some(mover) => mover,
            None => {
                return Err(MoveError::EmptyOrigin);
            },
        };
        if self.occupant_at(to).is_some() {
            if self.take_piece(to, color).is_none() {
                return Err(MoveError::CaptureInconsistent);
            }
        }
        let mut squares = self.squares;
        squares[to.rank()][to.file()] = Square::Occupied(piece, color);
        squares[from.rank()][from.file()] = Square::Empty;
        proof {
            lemma_relocate_conserves(old(self)@, from@, to@);
            assert(layout(squares) =~= old(self)@.relocate(from@, to@).pieces);
        }
        self.squares = squares;
        Ok(())
    }

    /// Every occupant of a board stands on one of its squares, and no score
    /// is negative.
    pub proof fn lemma_view_wf(&self)
        ensures
            self@.wf(),
    {
    }
}

} // verus!
