use vstd::prelude::*;

use crate::pieces::{Piece, PieceColor, PieceKind};
use crate::position::Position;

verus! {

/// The mathematical value of a `Board`: the 10 x 9 grid of pieces in
/// rank-major order, the two-entry king-location table (indexed by
/// `PieceColor::spec_idx`), and whose turn it is.
pub struct BoardView {
    pub cells: Seq<Seq<Piece>>,
    pub kings: Seq<Position>,
    pub turn: PieceColor,
}

impl BoardView {
    /// Well-formed: full 10 x 9 grid, and both king-table entries are
    /// positions on the board.
    pub open spec fn wf(self) -> bool {
        &&& self.cells.len() == 10
        &&& forall|r: int| 0 <= r < 10 ==> (#[trigger] self.cells[r]).len() == 9
        &&& self.kings.len() == 2
        &&& self.kings[0].on_board()
        &&& self.kings[1].on_board()
    }

    /// The piece at rank `r`, file `f`.
    pub open spec fn cell(self, r: int, f: int) -> Piece {
        self.cells[r][f]
    }

    /// The piece at position `p`.
    pub open spec fn at(self, p: Position) -> Piece {
        self.cells[p.0 as int][p.1 as int]
    }

    /// True iff the cell at rank `r`, file `f` holds a real piece.
    pub open spec fn occ(self, r: int, f: int) -> bool {
        !(self.cell(r, f).kind is Empty)
    }

    /// The recorded king position of `color`.
    pub open spec fn king_of(self, color: PieceColor) -> Position {
        self.kings[color.spec_idx()]
    }

    /// The recorded king cells hold a king of the matching color. This is
    /// established by the opening position and can be broken only by a
    /// `force` that captures a king.
    pub open spec fn kings_synced(self) -> bool {
        &&& self.at(self.king_of(PieceColor::Red))
            == (Piece { kind: PieceKind::King, color: PieceColor::Red })
        &&& self.at(self.king_of(PieceColor::Black))
            == (Piece { kind: PieceKind::King, color: PieceColor::Black })
    }
}

/// The kind placed on a back rank at file `f` in the opening position.
pub open spec fn back_rank_kind(f: int) -> PieceKind {
    if f == 0 || f == 8 {
        PieceKind::Rook
    } else if f == 1 || f == 7 {
        PieceKind::Knight
    } else if f == 2 || f == 6 {
        PieceKind::Bishop
    } else if f == 3 || f == 5 {
        PieceKind::Advisor
    } else {
        PieceKind::King
    }
}

/// The piece at rank `r`, file `f` in the canonical opening position:
/// back ranks 0 (Red) and 9 (Black), cannons on ranks 2 and 7 at files 1
/// and 7, pawns on ranks 3 and 6 at even files, everything else empty.
pub open spec fn opening_piece(r: int, f: int) -> Piece {
    if r == 0 {
        Piece { kind: back_rank_kind(f), color: PieceColor::Red }
    } else if r == 9 {
        Piece { kind: back_rank_kind(f), color: PieceColor::Black }
    } else if r == 2 {
        Piece {
            kind: if f == 1 || f == 7 {
                PieceKind::Cannon
            } else {
                PieceKind::Empty
            },
            color: PieceColor::Red,
        }
    } else if r == 7 {
        Piece {
            kind: if f == 1 || f == 7 {
                PieceKind::Cannon
            } else {
                PieceKind::Empty
            },
            color: PieceColor::Black,
        }
    } else if r == 3 {
        Piece {
            kind: if f % 2 == 0 {
                PieceKind::Pawn
            } else {
                PieceKind::Empty
            },
            color: PieceColor::Red,
        }
    } else if r == 6 {
        Piece {
            kind: if f % 2 == 0 {
                PieceKind::Pawn
            } else {
                PieceKind::Empty
            },
            color: PieceColor::Black,
        }
    } else {
        Piece::spec_empty()
    }
}

/// A board in the opening position.
pub open spec fn opening_view() -> BoardView {
    BoardView {
        cells: Seq::new(10, |r: int| Seq::new(9, |f: int| opening_piece(r, f))),
        kings: seq![Position(0isize, 4isize), Position(9isize, 4isize)],
        turn: PieceColor::Red,
    }
}

/// The value of a board after unconditionally relocating the piece at
/// `from` to `to`: `to` receives the old piece at `from`, `from` becomes
/// empty, and if the moved piece was a King that color's king-table entry
/// is updated. The turn is unchanged.
pub open spec fn force_view(v: BoardView, from: Position, to: Position) -> BoardView {
    BoardView {
        cells: Seq::new(
            10,
            |r: int|
                Seq::new(
                    9,
                    |f: int|
                        if r == to.0 && f == to.1 {
                            v.at(from)
                        } else if r == from.0 && f == from.1 {
                            Piece::spec_empty()
                        } else {
                            v.cell(r, f)
                        },
                ),
        ),
        kings: if v.at(from).kind is King {
            v.kings.update(v.at(from).color.spec_idx(), to)
        } else {
            v.kings
        },
        turn: v.turn,
    }
}

/// A 10 x 9 grid of pieces, the two king locations, and the side to move.
#[derive(Debug)]
pub struct Board {
    content: Vec<Vec<Piece>>,
    kings: Vec<Position>,
    turn: PieceColor,
}

impl View for Board {
    type V = BoardView;

    closed spec fn view(&self) -> BoardView {
        BoardView {
            cells: self.content@.map_values(|row: Vec<Piece>| row@),
            kings: self.kings@,
            turn: self.turn,
        }
    }
}

impl Board {
    /// The canonical opening position, Red to move.
    pub fn new() -> (r: Board)
        ensures
            r@ == opening_view(),
            r@.wf(),
            r@.kings_synced(),
    {
        let mut content: Vec<Vec<Piece>> = Vec::new();
        for rank in 0..10usize
            invariant
                content@.len() == rank,
                forall|r: int|
                    0 <= r < rank ==> (#[trigger] content@[r])@.len() == 9
                        && forall|f: int| 0 <= f < 9 ==> content@[r]@[f] == opening_piece(r, f),
        {
            let mut row: Vec<Piece> = Vec::new();
            for file in 0..9usize
                invariant
                    rank < 10,
                    row@.len() == file,
                    forall|f: int| 0 <= f < file ==> row@[f] == opening_piece(rank as int, f),
            {
                row.push(opening_piece_at(rank, file));
            }
            content.push(row);
        }
        let mut kings: Vec<Position> = Vec::new();
        kings.push(Position::new(0, 4));
        kings.push(Position::new(9, 4));
        let board = Board { content, kings, turn: PieceColor::Red };
        proof {
            assert(board@.cells =~~= opening_view().cells);
            assert(board@.kings =~= opening_view().kings);
            assert(board@ =~~= opening_view());
            assert(opening_view().at(Position(0isize, 4isize)) == opening_piece(0, 4));
            assert(opening_view().at(Position(9isize, 4isize)) == opening_piece(9, 4));
        }
        board
    }

    /// The piece at `pos`.
    pub fn get(&self, pos: Position) -> (r: Piece)
        requires
            self@.wf(),
            pos.on_board(),
        ensures
            r == self@.at(pos),
    {
        self.content[pos.rank()][pos.file()]
    }

    /// Overwrites the cell at `pos`; the king table and turn are untouched.
    fn set_cell(&mut self, pos: Position, piece: Piece)
        requires
            old(self)@.wf(),
            pos.on_board(),
        ensures
            final(self)@.wf(),
            final(self)@.kings == old(self)@.kings,
            final(self)@.turn == old(self)@.turn,
            final(self)@.cells == old(self)@.cells.update(
                pos.0 as int,
                old(self)@.cells[pos.0 as int].update(pos.1 as int, piece),
            ),
    {
        let r = pos.rank();
        let f = pos.file();
        proof {
            assert(self@.cells.len() == self.content@.len());
            assert(self@.cells[r as int] == self.content@[r as int]@);
        }
        self.content[r][f] = piece;
        proof {
            assert(self@.cells =~~= old(self)@.cells.update(
                pos.0 as int,
                old(self)@.cells[pos.0 as int].update(pos.1 as int, piece),
            ));
        }
    }

    /// Unconditionally relocates the piece at `from` to `to`, overwriting
    /// whatever was at `to` and leaving `from` empty; updates the king
    /// table when the moved piece is a King. No legality check: this is
    /// the low-level primitive for real moves and for speculative what-if
    /// evaluation alike.
    pub fn force(&mut self, from: Position, to: Position)
        requires
            old(self)@.wf(),
            from.on_board(),
            to.on_board(),
        ensures
            final(self)@ == force_view(old(self)@, from, to),
            final(self)@.wf(),
    {
        let piece = self.get(from);
        self.set_cell(from, Piece::empty());
        self.set_cell(to, piece);
        if piece.is_kind(PieceKind::King) {
            let ci = piece.color.idx();
            self.kings[ci] = to;
        }
        proof {
            assert(self@.cells =~~= force_view(old(self)@, from, to).cells);
            assert(self@.kings =~= force_view(old(self)@, from, to).kings);
            assert(self@ =~~= force_view(old(self)@, from, to));
        }
    }

    /// The side to move.
    pub fn turn(&self) -> (r: PieceColor)
        ensures
            r == self@.turn,
    {
        self.turn
    }

    /// Passes the move to the other side.
    pub fn next_turn(&mut self)
        ensures
            final(self)@ == (BoardView { turn: old(self)@.turn.spec_opposite(), ..old(self)@ }),
    {
        self.turn = self.turn.opposite();
    }

    /// The recorded king position of `color`.
    pub fn king(&self, color: PieceColor) -> (r: Position)
        requires
            self@.wf(),
        ensures
            r == self@.king_of(color),
    {
        self.kings[color.idx()]
    }

    /// Assembles a board from already-validated parts.
    pub(crate) fn from_parts(content: Vec<Vec<Piece>>, kings: Vec<Position>, turn: PieceColor) -> (
        b: Board)
        ensures
            b@.cells == content@.map_values(|row: Vec<Piece>| row@),
            b@.kings == kings@,
            b@.turn == turn,
    {
        Board { content, kings, turn }
    }

    /// An independent copy with the same value.
    pub fn duplicate(&self) -> (r: Board)
        requires
            self@.wf(),
        ensures
            r@ == self@,
            r@.wf(),
    {
        let mut content: Vec<Vec<Piece>> = Vec::new();
        for rank in 0..10usize
            invariant
                self@.wf(),
                content@.len() == rank,
                forall|r: int| 0 <= r < rank ==> (#[trigger] content@[r])@ == self@.cells[r],
        {
            let mut row: Vec<Piece> = Vec::new();
            for file in 0..9usize
                invariant
                    self@.wf(),
                    rank < 10,
                    row@.len() == file,
                    forall|f: int| 0 <= f < file ==> row@[f] == self@.cells[rank as int][f],
            {
                row.push(self.get(Position::new(rank, file)));
            }
            proof {
                assert(row@ =~= self@.cells[rank as int]);
            }
            content.push(row);
        }
        let kings = vec![self.king(PieceColor::Red), self.king(PieceColor::Black)];
        let board = Board { content, kings, turn: self.turn() };
        proof {
            assert(board@.cells =~~= self@.cells);
            assert(board@.kings =~= self@.kings);
            assert(board@ =~~= self@);
        }
        board
    }
}

impl Default for Board {
    /// The canonical opening position, Red to move.
    fn default() -> (r: Self)
        ensures
            r@ == opening_view(),
            r@.wf(),
            r@.kings_synced(),
    {
        Board::new()
    }
}

/// The opening-position piece at rank `r`, file `f`.
fn opening_piece_at(r: usize, f: usize) -> (p: Piece)
    requires
        r < 10,
        f < 9,
    ensures
        p == opening_piece(r as int, f as int),
{
    if r == 0 || r == 9 {
        let color = if r == 0 {
            PieceColor::Red
        } else {
            PieceColor::Black
        };
        let kind = if f == 0 || f == 8 {
            PieceKind::Rook
        } else if f == 1 || f == 7 {
            PieceKind::Knight
        } else if f == 2 || f == 6 {
            PieceKind::Bishop
        } else if f == 3 || f == 5 {
            PieceKind::Advisor
        } else {
            PieceKind::King
        };
        Piece::new(kind, color)
    } else if r == 2 || r == 7 {
        let color = if r == 2 {
            PieceColor::Red
        } else {
            PieceColor::Black
        };
        let kind = if f == 1 || f == 7 {
            PieceKind::Cannon
        } else {
            PieceKind::Empty
        };
        Piece::new(kind, color)
    } else if r == 3 || r == 6 {
        let color = if r == 3 {
            PieceColor::Red
        } else {
            PieceColor::Black
        };
        let kind = if f % 2 == 0 {
            PieceKind::Pawn
        } else {
            PieceKind::Empty
        };
        Piece::new(kind, color)
    } else {
        Piece::empty()
    }
}

} // verus!
