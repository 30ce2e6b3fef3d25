use vstd::prelude::*;

verus! {

/// The eight piece kinds; `Empty` is the sentinel for an unoccupied cell,
/// not a real piece.
#[derive(Debug, Clone, Copy, Hash, PartialEq, Eq, Structural)]
pub enum PieceKind {
    Empty,
    Pawn,
    Cannon,
    King,
    Advisor,
    Bishop,
    Knight,
    Rook,
}

/// The two sides.
#[derive(Debug, Clone, Copy, Hash, PartialEq, Eq, Structural)]
pub enum PieceColor {
    Red,
    Black,
}

impl PieceColor {
    pub open spec fn spec_opposite(self) -> PieceColor {
        match self {
            PieceColor::Red => PieceColor::Black,
            PieceColor::Black => PieceColor::Red,
        }
    }

    /// Toggles the side.
    #[verifier::when_used_as_spec(spec_opposite)]
    pub fn opposite(self) -> (r: Self)
        ensures
            r == self.spec_opposite(),
    {
        match self {
            PieceColor::Red => PieceColor::Black,
            PieceColor::Black => PieceColor::Red,
        }
    }

    pub open spec fn spec_idx(self) -> int {
        match self {
            PieceColor::Red => 0,
            PieceColor::Black => 1,
        }
    }

    /// Index of this color in the two-entry king-location table.
    pub fn idx(self) -> (r: usize)
        ensures
            r == self.spec_idx(),
    {
        match self {
            PieceColor::Red => 0,
            PieceColor::Black => 1,
        }
    }

    pub open spec fn spec_tag(self) -> bool {
        self is Black
    }

    /// The 2-valued wire tag for this color: `false` is Red, `true` is Black.
    #[verifier::when_used_as_spec(spec_tag)]
    pub fn tag(self) -> (r: bool)
        ensures
            r == self.spec_tag(),
    {
        match self {
            PieceColor::Red => false,
            PieceColor::Black => true,
        }
    }

    /// The color a wire tag stands for.
    pub fn from_tag(tag: bool) -> (r: PieceColor)
        ensures
            r.spec_tag() == tag,
    {
        if tag {
            PieceColor::Black
        } else {
            PieceColor::Red
        }
    }
}

/// A cell's content: a kind together with stored color bits. The color field
/// of an `Empty` piece is never semantically meaningful: `color()` returns
/// `None` whenever the kind is `Empty`.
#[derive(Debug, Clone, Copy, PartialEq, Eq, Structural)]
pub struct Piece {
    pub kind: PieceKind,
    pub color: PieceColor,
}

impl Piece {
    /// A piece of the given kind and color.
    pub fn new(kind: PieceKind, color: PieceColor) -> (r: Self)
        ensures
            r == (Piece { kind, color }),
    {
        Self { kind, color }
    }

    pub open spec fn spec_empty() -> Piece {
        Piece { kind: PieceKind::Empty, color: PieceColor::Red }
    }

    /// The content of an unoccupied cell.
    pub fn empty() -> (r: Self)
        ensures
            r == Piece::spec_empty(),
    {
        Self::default()
    }

    pub open spec fn spec_is_empty(self) -> bool {
        self.kind is Empty
    }

    /// True iff this cell holds no real piece.
    #[verifier::when_used_as_spec(spec_is_empty)]
    pub fn is_empty(self) -> (r: bool)
        ensures
            r == self.spec_is_empty(),
    {
        self.kind == PieceKind::Empty
    }

    pub open spec fn spec_is_enemy(self, other: Piece) -> bool {
        !self.is_empty() && !other.is_empty() && self.color != other.color
    }

    /// Both are real pieces and their colors differ.
    #[verifier::when_used_as_spec(spec_is_enemy)]
    pub fn is_enemy(self, other: Piece) -> (r: bool)
        ensures
            r == self.spec_is_enemy(other),
    {
        !self.is_empty() && !other.is_empty() && self.color != other.color
    }

    pub open spec fn spec_is_ally(self, other: Piece) -> bool {
        !self.is_empty() && !other.is_empty() && self.color == other.color
    }

    /// Both are real pieces of the same color.
    #[verifier::when_used_as_spec(spec_is_ally)]
    pub fn is_ally(self, other: Piece) -> (r: bool)
        ensures
            r == self.spec_is_ally(other),
    {
        !self.is_empty() && !other.is_empty() && self.color == other.color
    }

    pub open spec fn spec_is_steppable(self, other: Piece) -> bool {
        other.is_empty() || self.color != other.color
    }

    /// A normal piece may move onto `other`: it is empty or an enemy.
    #[verifier::when_used_as_spec(spec_is_steppable)]
    pub fn is_steppable(self, other: Piece) -> (r: bool)
        ensures
            r == self.spec_is_steppable(other),
    {
        other.is_empty() || self.color != other.color
    }

    pub open spec fn spec_is_kind(self, kind: PieceKind) -> bool {
        self.kind == kind
    }

    /// True iff this piece has the given kind.
    #[verifier::when_used_as_spec(spec_is_kind)]
    pub fn is_kind(self, kind: PieceKind) -> (r: bool)
        ensures
            r == self.spec_is_kind(kind),
    {
        self.kind == kind
    }

    pub open spec fn spec_is_color(self, color: PieceColor) -> bool {
        !self.is_empty() && self.color == color
    }

    /// A real piece of the given color.
    #[verifier::when_used_as_spec(spec_is_color)]
    pub fn is_color(self, color: PieceColor) -> (r: bool)
        ensures
            r == self.spec_is_color(color),
    {
        !self.is_empty() && self.color == color
    }

    /// The kind of this piece.
    pub fn kind(self) -> (r: PieceKind)
        ensures
            r == self.kind,
    {
        self.kind
    }

    pub open spec fn spec_color(self) -> Option<PieceColor> {
        if self.is_empty() {
            None
        } else {
            Some(self.color)
        }
    }

    /// The color of this piece, or `None` for an empty cell.
    #[verifier::when_used_as_spec(spec_color)]
    pub fn color(self) -> (r: Option<PieceColor>)
        ensures
            r == self.spec_color(),
    {
        if self.is_empty() {
            None
        } else {
            Some(self.color)
        }
    }
}

impl Default for Piece {
    /// The empty cell content.
    fn default() -> (r: Self)
        ensures
            r == Piece::spec_empty(),
    {
        Self { kind: PieceKind::Empty, color: PieceColor::Red }
    }
}

} // verus!
