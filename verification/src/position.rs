//! The mathematical model of a board: which piece stands where, and what
//! each side has captured so far.

use vstd::prelude::*;
use crate::coordinate::in_range;
use crate::piece::{max_piece_value, Color, Piece};

verus! {

/// The number of squares on the board.
pub open spec fn square_count() -> int {
    64
}

/// The square with the given number, counting along rank 0 first.
pub open spec fn square_at(index: int) -> (int, int) {
    (index / 8, index % 8)
}

/// The number of the square `at`.
pub open spec fn index_of(at: (int, int)) -> int {
    at.0 * 8 + at.1
}

/// A board as a partial map from squares to their occupants, with the
/// capture score of each side.
pub struct Position {
    pub pieces: Map<(int, int), (Piece, Color)>,
    pub white_score: int,
    pub black_score: int,
}

impl Position {
    /// Whether every occupant stands on a square of the board and no score
    /// is negative.
    pub open spec fn wf(self) -> bool {
        &&& forall|at: (int, int)| self.pieces.contains_key(at) ==> in_range(at)
        &&& self.white_score >= 0
        &&& self.black_score >= 0
    }

    /// The occupant of `at`, if there is one.
    pub open spec fn occupant(self, at: (int, int)) -> Option<(Piece, Color)> {
        if self.pieces.contains_key(at) {
            Some(self.pieces[at])
        } else {
            None
        }
    }

    /// Whether nothing stands on `at`.
    pub open spec fn is_empty(self, at: (int, int)) -> bool {
        !self.pieces.contains_key(at)
    }

    /// Whether a piece of `color` stands on `at`.
    pub open spec fn holds_friend(self, at: (int, int), color: Color) -> bool {
        self.pieces.contains_key(at) && self.pieces[at].1 == color
    }

    /// Whether a piece of the side opposing `color` stands on `at`.
    pub open spec fn holds_foe(self, at: (int, int), color: Color) -> bool {
        self.pieces.contains_key(at) && self.pieces[at].1 != color
    }

    /// The capture score of `color`.
    pub open spec fn score(self, color: Color) -> int {
        match color {
            Color::White => self.white_score,
            Color::Black => self.black_score,
        }
    }

    /// The material value standing on `at`, whichever side it belongs to.
    pub open spec fn value_at(self, at: (int, int)) -> int {
        if self.pieces.contains_key(at) {
            self.pieces[at].0.value()
        } else {
            0
        }
    }

    /// The material value that `color` has standing on `at`.
    pub open spec fn value_of(self, color: Color, at: (int, int)) -> int {
        if self.holds_friend(at, color) {
            self.pieces[at].0.value()
        } else {
            0
        }
    }

    /// The material that `color` has standing on the first `count` squares.
    pub open spec fn material_below(self, color: Color, count: int) -> int
        decreases count,
    {
        if count <= 0 {
            0
        } else {
            self.material_below(color, count - 1) + self.value_of(color, square_at(count - 1))
        }
    }

    /// The material that `color` has standing on the board.
    pub open spec fn material_of(self, color: Color) -> int {
        self.material_below(color, square_count())
    }

    /// The material standing on the board.
    pub open spec fn material(self) -> int {
        self.material_of(Color::White) + self.material_of(Color::Black)
    }

    /// The material on the board together with the material both sides have
    /// captured.
    pub open spec fn total(self) -> int {
        self.material() + self.white_score + self.black_score
    }

    /// The position after `color` has been credited with `amount`.
    pub open spec fn credit(self, color: Color, amount: int) -> Position {
        match color {
            Color::White => Position { white_score: self.white_score + amount, ..self },
            Color::Black => Position { black_score: self.black_score + amount, ..self },
        }
    }

    /// The position after `captor` has taken whatever stands on `at`: the
    /// square is cleared and the occupant's value goes to `captor`'s score.
    /// Nothing changes where `at` is empty.
    pub open spec fn capture(self, at: (int, int), captor: Color) -> Position {
        Position { pieces: self.pieces.remove(at), ..self.credit(captor, self.value_at(at)) }
    }

    /// The position after the occupant of `from` has gone to `to`: whatever
    /// stood on `to` is captured by the mover's side, the mover is set down
    /// on `to`, and `from` is cleared last.
    pub open spec fn relocate(self, from: (int, int), to: (int, int)) -> Position
        recommends
            self.pieces.contains_key(from),
    {
        let mover = self.pieces[from];
        let taken = self.capture(to, mover.1);
        Position { pieces: taken.pieces.insert(to, mover).remove(from), ..taken }
    }

    /// The starting layout: each side's pieces on its home row, its pawns on
    /// the row in front, and no captures yet.
    pub open spec fn standard() -> Position {
        Position {
            pieces: Map::new(
                |at: (int, int)| in_range(at) && (at.0 <= 1 || at.0 >= 6),
                |at: (int, int)| (standard_piece(at), standard_color(at)),
            ),
            white_score: 0,
            black_score: 0,
        }
    }
}

/// The side whose piece starts on `at`.
pub open spec fn standard_color(at: (int, int)) -> Color {
    if at.0 <= 1 {
        Color::White
    } else {
        Color::Black
    }
}

/// The kind of piece that starts on `at`.
pub open spec fn standard_piece(at: (int, int)) -> Piece {
    if at.0 == 1 || at.0 == 6 {
        Piece::Pawn
    } else if at.1 == 0 || at.1 == 7 {
        Piece::Rook
    } else if at.1 == 1 || at.1 == 6 {
        Piece::Knight
    } else if at.1 == 2 || at.1 == 5 {
        Piece::Bishop
    } else if at.1 == 3 {
        Piece::Queen
    } else {
        Piece::King
    }
}

/// Two positions hold the same occupants everywhere but on `at`.
pub open spec fn differ_only_at(p: Position, q: Position, at: (int, int)) -> bool {
    forall|other: (int, int)| other != at ==> p.occupant(other) == q.occupant(other)
}

/// Where two positions differ on one square only, the material of a side
/// differs by what that side has standing on that square.
pub proof fn lemma_material_differs_by_one_square(
    p: Position,
    q: Position,
    at: (int, int),
    color: Color,
    count: int,
)
    requires
        differ_only_at(p, q, at),
        in_range(at),
        0 <= count <= square_count(),
    ensures
        q.material_below(color, count) == p.material_below(color, count) + if index_of(at)
            < count {
            q.value_of(color, at) - p.value_of(color, at)
        } else {
            0
        },
    decreases count,
{
    if count > 0 {
        lemma_material_differs_by_one_square(p, q, at, color, count - 1);
        let here = square_at(count - 1);
        if here != at {
            assert(p.occupant(here) == q.occupant(here));
        }
    }
}

/// Where two positions hold the same occupants on every square of the
/// board, each side has the same material in both.
pub proof fn lemma_material_agrees(p: Position, q: Position, color: Color, count: int)
    requires
        forall|at: (int, int)| in_range(at) ==> p.occupant(at) == q.occupant(at),
        0 <= count <= square_count(),
    ensures
        q.material_below(color, count) == p.material_below(color, count),
    decreases count,
{
    if count > 0 {
        lemma_material_agrees(p, q, color, count - 1);
        assert(in_range(square_at(count - 1)));
    }
}

/// No side's material is negative, and both together are never more than
/// the most valuable piece on every square.
pub proof fn lemma_material_bounds(p: Position, count: int)
    requires
        0 <= count,
    ensures
        0 <= p.material_below(Color::White, count),
        0 <= p.material_below(Color::Black, count),
        p.material_below(Color::White, count) + p.material_below(Color::Black, count)
            <= max_piece_value() * count,
    decreases count,
{
    if count > 0 {
        lemma_material_bounds(p, count - 1);
    }
}

/// In the starting layout each side has a queen, two rooks, two bishops, two
/// knights and eight pawns on the board.
pub proof fn lemma_standard_material()
    ensures
        Position::standard().material_of(Color::White) == 39,
        Position::standard().material_of(Color::Black) == 39,
        Position::standard().total() == 78,
{
    reveal_with_fuel(Position::material_below, 65);
}

/// A capture moves material from the board to the captor's score and
/// changes nothing else: the side of the piece taken loses its value on the
/// board, the captor's score grows by as much, and the other side's
/// material and the other score stay as they were.
pub proof fn lemma_capture_conserves(p: Position, at: (int, int), captor: Color)
    requires
        p.wf(),
    ensures
        p.capture(at, captor).wf(),
        p.capture(at, captor).total() == p.total(),
        forall|color: Color|
            #![trigger p.capture(at, captor).material_of(color)]
            p.capture(at, captor).material_of(color) == p.material_of(color) - p.value_of(
                color,
                at,
            ),
        p.capture(at, captor).score(captor) == p.score(captor) + p.value_at(at),
        p.capture(at, captor).score(captor.opponent()) == p.score(captor.opponent()),
        p.capture(at, captor).is_empty(at),
        differ_only_at(p, p.capture(at, captor), at),
{
    let q = p.capture(at, captor);
    if p.pieces.contains_key(at) {
        assert(in_range(at));
        lemma_material_differs_by_one_square(p, q, at, Color::White, square_count());
        lemma_material_differs_by_one_square(p, q, at, Color::Black, square_count());
    } else {
        assert(q.pieces =~= p.pieces);
        lemma_material_agrees(p, q, Color::White, square_count());
        lemma_material_agrees(p, q, Color::Black, square_count());
    }
}

/// A relocation keeps the total of board material and captured material,
/// lowers neither score, and leaves the score of the mover's opponent as it
/// was.
pub proof fn lemma_relocate_conserves(p: Position, from: (int, int), to: (int, int))
    requires
        p.wf(),
        p.pieces.contains_key(from),
        in_range(to),
    ensures
        p.relocate(from, to).wf(),
        p.relocate(from, to).total() == p.total(),
        p.relocate(from, to).score(p.pieces[from].1) == p.score(p.pieces[from].1) + p.value_at(to),
        p.relocate(from, to).score(p.pieces[from].1.opponent()) == p.score(
            p.pieces[from].1.opponent(),
        ),
        p.relocate(from, to).white_score >= p.white_score,
        p.relocate(from, to).black_score >= p.black_score,
{
    let mover = p.pieces[from];
    let taken = p.capture(to, mover.1);
    let landed = Position { pieces: taken.pieces.insert(to, mover), ..taken };
    let left = p.relocate(from, to);
    assert(in_range(from));
    lemma_capture_conserves(p, to, mover.1);
    lemma_material_differs_by_one_square(taken, landed, to, Color::White, square_count());
    lemma_material_differs_by_one_square(taken, landed, to, Color::Black, square_count());
    lemma_material_differs_by_one_square(landed, left, from, Color::White, square_count());
    lemma_material_differs_by_one_square(landed, left, from, Color::Black, square_count());
}

/// Where a piece goes to an empty square or takes a foe, each side's score
/// grows by exactly what the other side loses on the board: a side's score
/// and its opponent's material together stay as they were.
pub proof fn lemma_capture_of_a_foe_keeps_the_balance(
    p: Position,
    from: (int, int),
    to: (int, int),
)
    requires
        p.wf(),
        p.pieces.contains_key(from),
        in_range(to),
        !p.holds_friend(to, p.pieces[from].1),
    ensures
        forall|color: Color|
            #![trigger p.relocate(from, to).score(color)]
            p.relocate(from, to).score(color) + p.relocate(from, to).material_of(
                color.opponent(),
            ) == p.score(color) + p.material_of(color.opponent()),
{
    let mover = p.pieces[from];
    let taken = p.capture(to, mover.1);
    let landed = Position { pieces: taken.pieces.insert(to, mover), ..taken };
    let left = p.relocate(from, to);
    assert(in_range(from));
    lemma_capture_conserves(p, to, mover.1);
    lemma_material_differs_by_one_square(taken, landed, to, Color::White, square_count());
    lemma_material_differs_by_one_square(taken, landed, to, Color::Black, square_count());
    lemma_material_differs_by_one_square(landed, left, from, Color::White, square_count());
    lemma_material_differs_by_one_square(landed, left, from, Color::Black, square_count());
}

} // verus!
