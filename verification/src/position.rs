use vstd::prelude::*;

verus! {

/// Number of ranks (rows) of the board.
pub const RANKS: usize = 10;

/// Number of files (columns) of the board.
pub const FILES: usize = 9;

/// A board coordinate: `(rank, file)`. Arithmetic is unchecked; whether a
/// position lies on the board is the separate predicate `on_board`
/// (exposed through `legal`).
#[derive(Debug, Clone, Copy, PartialEq, Eq, Hash, Structural)]
pub struct Position(pub isize, pub isize);

/// The four orthogonal unit directions. `Up` decreases the rank, `Down`
/// increases it; Red's forward direction (toward Black's back rank 9)
/// is `Down`.
#[derive(Debug, Clone, Copy, PartialEq, Eq, Hash, Structural)]
pub enum MoveDir {
    Left,
    Right,
    Up,
    Down,
}

/// The four diagonal unit directions.
#[derive(Debug, Clone, Copy, PartialEq, Eq, Hash, Structural)]
pub enum DiagDir {
    LU,
    LD,
    RU,
    RD,
}

impl MoveDir {
    pub open spec fn spec_corresponding(self) -> (DiagDir, DiagDir) {
        match self {
            MoveDir::Left => (DiagDir::LU, DiagDir::LD),
            MoveDir::Right => (DiagDir::RU, DiagDir::RD),
            MoveDir::Up => (DiagDir::LU, DiagDir::RU),
            MoveDir::Down => (DiagDir::LD, DiagDir::RD),
        }
    }

    /// The two diagonal directions adjacent to this orthogonal direction
    /// (the Knight's two landing diagonals after a step this way).
    pub fn corresponding(self) -> (r: [DiagDir; 2])
        ensures
            r[0] == self.spec_corresponding().0,
            r[1] == self.spec_corresponding().1,
    {
        match self {
            MoveDir::Left => [DiagDir::LU, DiagDir::LD],
            MoveDir::Right => [DiagDir::RU, DiagDir::RD],
            MoveDir::Up => [DiagDir::LU, DiagDir::RU],
            MoveDir::Down => [DiagDir::LD, DiagDir::RD],
        }
    }

    pub open spec fn spec_offset(self) -> Position {
        match self {
            MoveDir::Left => Position(0isize, -1isize),
            MoveDir::Right => Position(0isize, 1isize),
            MoveDir::Up => Position(-1isize, 0isize),
            MoveDir::Down => Position(1isize, 0isize),
        }
    }

    /// The unit vector of this direction.
    #[verifier::when_used_as_spec(spec_offset)]
    pub fn offset(self) -> (r: Position)
        ensures
            r == self.spec_offset(),
    {
        match self {
            MoveDir::Left => Position(0, -1),
            MoveDir::Right => Position(0, 1),
            MoveDir::Up => Position(-1, 0),
            MoveDir::Down => Position(1, 0),
        }
    }
}

impl DiagDir {
    pub open spec fn spec_offset(self) -> Position {
        match self {
            DiagDir::LU => Position(-1isize, -1isize),
            DiagDir::LD => Position(1isize, -1isize),
            DiagDir::RU => Position(-1isize, 1isize),
            DiagDir::RD => Position(1isize, 1isize),
        }
    }

    /// The unit vector of this direction.
    #[verifier::when_used_as_spec(spec_offset)]
    pub fn offset(self) -> (r: Position)
        ensures
            r == self.spec_offset(),
    {
        match self {
            DiagDir::LU => Position(-1, -1),
            DiagDir::LD => Position(1, -1),
            DiagDir::RU => Position(-1, 1),
            DiagDir::RD => Position(1, 1),
        }
    }
}

impl Position {
    /// The position at the given rank and file.
    pub fn new(rank: usize, file: usize) -> (r: Self)
        requires
            rank <= isize::MAX,
            file <= isize::MAX,
        ensures
            r.0 == rank,
            r.1 == file,
    {
        Self(rank as isize, file as isize)
    }

    /// The position at the given signed rank and file.
    pub fn new_int(rank: isize, file: isize) -> (r: Self)
        ensures
            r == Position(rank, file),
    {
        Self(rank, file)
    }

    /// True iff this position lies on the 10 x 9 board.
    pub open spec fn on_board(self) -> bool {
        0 <= self.0 < 10 && 0 <= self.1 < 9
    }

    /// `Some(self)` iff this position lies on the board.
    pub fn legal(self) -> (r: Option<Self>)
        ensures
            r == (if self.on_board() {
                Some(self)
            } else {
                None::<Position>
            }),
    {
        if 0 <= self.0 && self.0 < RANKS as isize && 0 <= self.1 && self.1 < FILES as isize {
            Some(self)
        } else {
            None
        }
    }

    /// The rank as an unsigned index.
    pub fn rank(self) -> (r: usize)
        requires
            0 <= self.0,
        ensures
            r == self.0,
    {
        self.0 as usize
    }

    /// The file as an unsigned index.
    pub fn file(self) -> (r: usize)
        requires
            0 <= self.1,
        ensures
            r == self.1,
    {
        self.1 as usize
    }

    /// The rank as a signed coordinate.
    pub fn rank_int(self) -> (r: isize)
        ensures
            r == self.0,
    {
        self.0
    }

    /// The file as a signed coordinate.
    pub fn file_int(self) -> (r: isize)
        ensures
            r == self.1,
    {
        self.1
    }

    /// Vector addition.
    pub fn plus(self, other: Position) -> (r: Position)
        requires
            isize::MIN <= self.0 + other.0 <= isize::MAX,
            isize::MIN <= self.1 + other.1 <= isize::MAX,
        ensures
            r.0 == self.0 + other.0,
            r.1 == self.1 + other.1,
    {
        Position(self.0 + other.0, self.1 + other.1)
    }

    /// Vector subtraction.
    pub fn minus(self, other: Position) -> (r: Position)
        requires
            isize::MIN <= self.0 - other.0 <= isize::MAX,
            isize::MIN <= self.1 - other.1 <= isize::MAX,
        ensures
            r.0 == self.0 - other.0,
            r.1 == self.1 - other.1,
    {
        Position(self.0 - other.0, self.1 - other.1)
    }

    /// Integer scaling (the Bishop's two-step diagonal is a unit diagonal
    /// scaled by 2).
    pub fn scaled(self, k: isize) -> (r: Position)
        requires
            isize::MIN <= self.0 * k <= isize::MAX,
            isize::MIN <= self.1 * k <= isize::MAX,
        ensures
            r.0 == self.0 * k,
            r.1 == self.1 * k,
    {
        Position(self.0 * k, self.1 * k)
    }

    /// Vector negation.
    pub fn negated(self) -> (r: Position)
        requires
            self.0 != isize::MIN,
            self.1 != isize::MIN,
        ensures
            r.0 == -self.0,
            r.1 == -self.1,
    {
        Position(-self.0, -self.1)
    }
}

} // verus!
