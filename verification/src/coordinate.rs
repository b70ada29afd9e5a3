//! Board addresses and the geometry of the moves between them.

use vstd::prelude::*;

verus! {

/// The number of ranks, and of files, on the board.
pub const BOARD_SIZE: usize = 8;

/// Whether a (rank, file) pair addresses a square of the board.
pub open spec fn in_range(at: (int, int)) -> bool {
    0 <= at.0 < BOARD_SIZE && 0 <= at.1 < BOARD_SIZE
}

/// The (rank, file) change that leads from `from` to `to`.
pub open spec fn delta(from: (int, int), to: (int, int)) -> (int, int) {
    (to.0 - from.0, to.1 - from.1)
}

/// The square reached from `from` by the change `by`.
pub open spec fn shifted(from: (int, int), by: (int, int)) -> (int, int) {
    (from.0 + by.0, from.1 + by.1)
}

/// The absolute value of `x`.
pub open spec fn magnitude(x: int) -> int {
    if x < 0 {
        -x
    } else {
        x
    }
}

/// The sign of `x`: -1, 0 or 1.
pub open spec fn sign(x: int) -> int {
    if x < 0 {
        -1
    } else if x == 0 {
        0
    } else {
        1
    }
}

/// The number of single steps a straight move of change `d` takes.
pub open spec fn span(d: (int, int)) -> int {
    if magnitude(d.0) >= magnitude(d.1) {
        magnitude(d.0)
    } else {
        magnitude(d.1)
    }
}

/// The single step that a move of change `d` repeats.
pub open spec fn heading(d: (int, int)) -> (int, int) {
    (sign(d.0), sign(d.1))
}

/// Whether `dir` is one of the eight compass directions.
pub open spec fn is_direction(dir: (int, int)) -> bool {
    &&& -1 <= dir.0 <= 1
    &&& -1 <= dir.1 <= 1
    &&& dir != (0int, 0int)
}

/// Whether `d` is one of the eight leaps of a knight.
pub open spec fn is_knight_leap(d: (int, int)) -> bool {
    ||| magnitude(d.0) == 2 && magnitude(d.1) == 1
    ||| magnitude(d.0) == 1 && magnitude(d.1) == 2
}

/// Whether `d` is a single step in one of the eight compass directions.
pub open spec fn is_king_step(d: (int, int)) -> bool {
    span(d) == 1
}

/// Whether `d` runs along a diagonal.
pub open spec fn is_diagonal(d: (int, int)) -> bool {
    d.0 != 0 && magnitude(d.0) == magnitude(d.1)
}

/// Whether `d` runs along a rank or along a file.
pub open spec fn is_orthogonal(d: (int, int)) -> bool {
    (d.0 == 0) != (d.1 == 0)
}

/// Whether `d` runs along a line a sliding piece can follow.
pub open spec fn is_straight(d: (int, int)) -> bool {
    is_diagonal(d) || is_orthogonal(d)
}

/// `steps` times the unit `unit`, which is -1, 0 or 1.
pub open spec fn scaled(unit: int, steps: int) -> int {
    if unit < 0 {
        -steps
    } else if unit == 0 {
        0
    } else {
        steps
    }
}

/// The square `steps` single steps away from `from` in direction `dir`.
pub open spec fn toward(from: (int, int), dir: (int, int), steps: int) -> (int, int) {
    (from.0 + scaled(dir.0, steps), from.1 + scaled(dir.1, steps))
}

/// A straight move is its heading repeated over its span.
pub proof fn lemma_straight_decomposes(from: (int, int), to: (int, int))
    requires
        is_straight(delta(from, to)),
    ensures
        is_direction(heading(delta(from, to))),
        span(delta(from, to)) >= 1,
        toward(from, heading(delta(from, to)), span(delta(from, to))) == to,
{
}

/// Walking `steps` single steps in a compass direction is a straight move
/// with that heading and that span.
pub proof fn lemma_toward_is_straight(from: (int, int), dir: (int, int), steps: int)
    requires
        is_direction(dir),
        steps >= 1,
    ensures
        is_straight(delta(from, toward(from, dir, steps))),
        heading(delta(from, toward(from, dir, steps))) == dir,
        span(delta(from, toward(from, dir, steps))) == steps,
        is_diagonal(delta(from, toward(from, dir, steps))) <==> dir.0 != 0 && dir.1 != 0,
{
}

/// A square of the board, addressed by rank and file, each below
/// `BOARD_SIZE`. A value of this type is always in range.
#[derive(Clone, Copy, Debug, PartialEq, Eq, Hash, Structural)]
pub struct Coordinate {
    rank: usize,
    file: usize,
}

impl View for Coordinate {
    type V = (int, int);

    closed spec fn view(&self) -> (int, int) {
        (self.rank as int, self.file as int)
    }
}

impl Coordinate {
    #[verifier::type_invariant]
    closed spec fn bounded(&self) -> bool {
        self.rank < BOARD_SIZE && self.file < BOARD_SIZE
    }

    /// A coordinate is nothing but its rank and file: two coordinates that
    /// address the same square are the same coordinate.
    pub proof fn lemma_same_square_same_coordinate(self, other: Coordinate)
        requires
            self@ == other@,
        ensures
            self == other,
    {
    }

    /// Makes the coordinate of the given rank and file, or nothing where
    /// either lies off the board.
    pub fn new(rank: usize, file: usize) -> (made: Option<Coordinate>)
        ensures
            made is Some <==> in_range((rank as int, file as int)),
            made matches Some(c) ==> c@ == (rank as int, file as int),
    {
        if rank < BOARD_SIZE && file < BOARD_SIZE {
            Some(Coordinate { rank, file })
        } else {
            None
        }
    }

    /// The rank, counted from White's home row.
    pub fn rank(&self) -> (rank: usize)
        ensures
            rank == self@.0,
            in_range(self@),
    {
        proof {
            use_type_invariant(self);
        }
        self.rank
    }

    /// The file, counted from the queen's side.
    pub fn file(&self) -> (file: usize)
        ensures
            file == self@.1,
            in_range(self@),
    {
        proof {
            use_type_invariant(self);
        }
        self.file
    }

    /// The square reached by changing the rank by `ranks` and the file by
    /// `files`, or nothing where that leaves the board.
    pub fn offset(&self, ranks: i8, files: i8) -> (reached: Option<Coordinate>)
        ensures
            reached is Some <==> in_range(shifted(self@, (ranks as int, files as int))),
            reached matches Some(c) ==> c@ == shifted(self@, (ranks as int, files as int)),
    {
        proof {
            use_type_invariant(self);
        }
        let size: i32 = BOARD_SIZE as i32;
        let rank: i32 = self.rank as i32 + ranks as i32;
        let file: i32 = self.file as i32 + files as i32;
        if 0 <= rank && rank < size && 0 <= file && file < size {
            Some(Coordinate { rank: rank as usize, file: file as usize })
        } else {
            None
        }
    }
}

} // verus!
