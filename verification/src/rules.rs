use vstd::prelude::*;

use crate::board::{Board, BoardView};
use crate::pieces::{PieceColor, PieceKind};
use crate::position::Position;

verus! {

broadcast use vstd::seq_lib::lemma_seq_contains_after_push;

/// The 3 x 3 palace of `color`: files 3 to 5, and the three ranks nearest
/// that side's back rank.
pub open spec fn in_palace(color: PieceColor, r: int, f: int) -> bool {
    &&& 3 <= f <= 5
    &&& if color is Red {
        0 <= r <= 2
    } else {
        7 <= r <= 9
    }
}

/// A pawn of `color` standing on rank `r` has crossed the river (the
/// midline between ranks 4 and 5).
pub open spec fn crossed_river(color: PieceColor, r: int) -> bool {
    if color is Red {
        r >= 5
    } else {
        r <= 4
    }
}

/// The rank increment that moves `color` toward the enemy side.
pub open spec fn forward(color: PieceColor) -> int {
    if color is Red {
        1
    } else {
        -1
    }
}

/// Number of occupied cells on file `f` with rank strictly between `lo`
/// and `hi`.
pub open spec fn file_occ_between(v: BoardView, f: int, lo: int, hi: int) -> nat
    decreases hi - lo,
{
    if hi - lo <= 1 {
        0
    } else {
        file_occ_between(v, f, lo, hi - 1) + if v.occ(hi - 1, f) {
            1nat
        } else {
            0nat
        }
    }
}

/// Number of occupied cells on rank `r` with file strictly between `lo`
/// and `hi`.
pub open spec fn rank_occ_between(v: BoardView, r: int, lo: int, hi: int) -> nat
    decreases hi - lo,
{
    if hi - lo <= 1 {
        0
    } else {
        rank_occ_between(v, r, lo, hi - 1) + if v.occ(r, hi - 1) {
            1nat
        } else {
            0nat
        }
    }
}

/// Number of occupied cells strictly between two positions that share a
/// rank or a file (on a shared file this counts along the file, else
/// along the rank).
pub open spec fn between_count(v: BoardView, fr: int, ff: int, tr: int, tf: int) -> nat {
    if ff == tf {
        if fr <= tr {
            file_occ_between(v, ff, fr, tr)
        } else {
            file_occ_between(v, ff, tr, fr)
        }
    } else {
        if ff <= tf {
            rank_occ_between(v, fr, ff, tf)
        } else {
            rank_occ_between(v, fr, tf, ff)
        }
    }
}

/// The mover at `(fr, ff)` may step onto `(tr, tf)`: that cell is empty
/// or holds an enemy.
pub open spec fn steppable_at(v: BoardView, fr: int, ff: int, tr: int, tf: int) -> bool {
    v.cell(fr, ff).spec_is_steppable(v.cell(tr, tf))
}

/// Pawn: one step forward; additionally one step sideways once it has
/// crossed the river; never backward.
pub open spec fn pawn_move(v: BoardView, fr: int, ff: int, tr: int, tf: int) -> bool {
    let c = v.cell(fr, ff).color;
    &&& steppable_at(v, fr, ff, tr, tf)
    &&& ((tr == fr + forward(c) && tf == ff) || (crossed_river(c, fr) && tr == fr && (tf == ff + 1
        || tf == ff - 1)))
}

/// Rook: slides any distance along its rank or file over empty cells,
/// stopping at (and optionally capturing) the first occupied cell.
pub open spec fn rook_move(v: BoardView, fr: int, ff: int, tr: int, tf: int) -> bool {
    &&& !(tr == fr && tf == ff)
    &&& (tr == fr || tf == ff)
    &&& between_count(v, fr, ff, tr, tf) == 0
    &&& steppable_at(v, fr, ff, tr, tf)
}

/// Cannon: slides like a rook onto empty cells; captures only by jumping
/// exactly one screen piece and landing on the very next occupied cell,
/// which must be an enemy.
pub open spec fn cannon_move(v: BoardView, fr: int, ff: int, tr: int, tf: int) -> bool {
    &&& !(tr == fr && tf == ff)
    &&& (tr == fr || tf == ff)
    &&& if v.occ(tr, tf) {
        between_count(v, fr, ff, tr, tf) == 1 && v.cell(fr, ff).spec_is_enemy(v.cell(tr, tf))
    } else {
        between_count(v, fr, ff, tr, tf) == 0
    }
}

/// King, ordinary move: one orthogonal step, confined to its palace.
pub open spec fn king_step(v: BoardView, fr: int, ff: int, tr: int, tf: int) -> bool {
    let c = v.cell(fr, ff).color;
    &&& ((tr == fr && (tf == ff + 1 || tf == ff - 1)) || (tf == ff && (tr == fr + 1 || tr == fr
        - 1)))
    &&& in_palace(c, tr, tf)
    &&& steppable_at(v, fr, ff, tr, tf)
}

/// Flying general: scanning straight ahead toward the enemy along its
/// file, the first occupied cell is the enemy King, which may be captured
/// there even outside the mover's palace.
pub open spec fn flying_general(v: BoardView, fr: int, ff: int, tr: int, tf: int) -> bool {
    let c = v.cell(fr, ff).color;
    &&& tf == ff
    &&& if c is Red {
        tr > fr
    } else {
        tr < fr
    }
    &&& between_count(v, fr, ff, tr, tf) == 0
    &&& v.cell(tr, tf).kind is King
    &&& v.cell(tr, tf).color != c
}

/// King: an ordinary palace step, or the flying-general capture.
pub open spec fn king_move(v: BoardView, fr: int, ff: int, tr: int, tf: int) -> bool {
    king_step(v, fr, ff, tr, tf) || flying_general(v, fr, ff, tr, tf)
}

/// Advisor: one diagonal step, confined to its palace.
pub open spec fn advisor_move(v: BoardView, fr: int, ff: int, tr: int, tf: int) -> bool {
    let c = v.cell(fr, ff).color;
    &&& (tr == fr + 1 || tr == fr - 1)
    &&& (tf == ff + 1 || tf == ff - 1)
    &&& in_palace(c, tr, tf)
    &&& steppable_at(v, fr, ff, tr, tf)
}

/// Bishop: exactly two diagonal steps in a straight line, blocked when
/// the intervening diagonal cell (the elephant's eye) is occupied.
pub open spec fn bishop_move(v: BoardView, fr: int, ff: int, tr: int, tf: int) -> bool {
    &&& (tr == fr + 2 || tr == fr - 2)
    &&& (tf == ff + 2 || tf == ff - 2)
    &&& !v.occ(
        if tr == fr + 2 {
            fr + 1
        } else {
            fr - 1
        },
        if tf == ff + 2 {
            ff + 1
        } else {
            ff - 1
        },
    )
    &&& steppable_at(v, fr, ff, tr, tf)
}

/// Knight: an orthogonal step plus an adjacent diagonal step, blocked
/// when the intermediate orthogonal cell (the leg) is occupied.
pub open spec fn knight_move(v: BoardView, fr: int, ff: int, tr: int, tf: int) -> bool {
    &&& (((tr == fr + 2 || tr == fr - 2) && (tf == ff + 1 || tf == ff - 1) && !v.occ(
        if tr == fr + 2 {
            fr + 1
        } else {
            fr - 1
        },
        ff,
    )) || ((tr == fr + 1 || tr == fr - 1) && (tf == ff + 2 || tf == ff - 2) && !v.occ(
        fr,
        if tf == ff + 2 {
            ff + 1
        } else {
            ff - 1
        },
    )))
    &&& steppable_at(v, fr, ff, tr, tf)
}

/// The piece standing at `from` can move to `to`, ignoring whether the
/// move exposes its own king to check (that filter is the legal-move-set
/// computation's job).
pub open spec fn piece_move(v: BoardView, from: Position, to: Position) -> bool {
    let fr = from.0 as int;
    let ff = from.1 as int;
    let tr = to.0 as int;
    let tf = to.1 as int;
    &&& from.on_board()
    &&& to.on_board()
    &&& match v.at(from).kind {
        PieceKind::Empty => false,
        PieceKind::Pawn => pawn_move(v, fr, ff, tr, tf),
        PieceKind::Cannon => cannon_move(v, fr, ff, tr, tf),
        PieceKind::King => king_move(v, fr, ff, tr, tf),
        PieceKind::Advisor => advisor_move(v, fr, ff, tr, tf),
        PieceKind::Bishop => bishop_move(v, fr, ff, tr, tf),
        PieceKind::Knight => knight_move(v, fr, ff, tr, tf),
        PieceKind::Rook => rook_move(v, fr, ff, tr, tf),
    }
}

/// The side to move is in check: some enemy piece has the mover's
/// recorded king position within its reach.
pub open spec fn in_check(v: BoardView) -> bool {
    exists|r: int, f: int|
        0 <= r < 10 && 0 <= f < 9 && v.cell(r, f).spec_is_color(v.turn.spec_opposite())
            && #[trigger] piece_move(v, Position(r as isize, f as isize), v.king_of(v.turn))
}

impl Board {
    /// `Some(to)` iff `to` is on the board and the piece at `from` may
    /// step onto it (empty or enemy).
    fn test_move(&self, from: Position, to: Position) -> (r: Option<Position>)
        requires
            self@.wf(),
            from.on_board(),
        ensures
            r == (if to.on_board() && steppable_at(
                self@,
                from.0 as int,
                from.1 as int,
                to.0 as int,
                to.1 as int,
            ) {
                Some(to)
            } else {
                None::<Position>
            }),
    {
        if let Some(t) = to.legal() {
            if self.get(from).is_steppable(self.get(t)) {
                Some(t)
            } else {
                None
            }
        } else {
            None
        }
    }

    /// Counts the occupied cells on file `f` with rank strictly between
    /// `lo` and `hi`.
    fn count_file_between(&self, f: usize, lo: usize, hi: usize) -> (n: usize)
        requires
            self@.wf(),
            f < 9,
            lo <= hi,
            hi < 10,
        ensures
            n == file_occ_between(self@, f as int, lo as int, hi as int),
    {
        let mut n: usize = 0;
        let mut r: usize = lo + 1;
        while r < hi
            invariant
                self@.wf(),
                f < 9,
                lo + 1 <= r,
                hi < 10,
                r <= hi || r == lo + 1,
                n <= r,
                n == file_occ_between(self@, f as int, lo as int, r as int),
            decreases hi - r,
        {
            if !self.get(Position::new(r, f)).is_empty() {
                n = n + 1;
            }
            r = r + 1;
        }
        n
    }

    /// Counts the occupied cells on rank `r` with file strictly between
    /// `lo` and `hi`.
    fn count_rank_between(&self, r: usize, lo: usize, hi: usize) -> (n: usize)
        requires
            self@.wf(),
            r < 10,
            lo <= hi,
            hi < 9,
        ensures
            n == rank_occ_between(self@, r as int, lo as int, hi as int),
    {
        let mut n: usize = 0;
        let mut f: usize = lo + 1;
        while f < hi
            invariant
                self@.wf(),
                r < 10,
                lo + 1 <= f,
                hi < 9,
                f <= hi || f == lo + 1,
                n <= f,
                n == rank_occ_between(self@, r as int, lo as int, f as int),
            decreases hi - f,
        {
            if !self.get(Position::new(r, f)).is_empty() {
                n = n + 1;
            }
            f = f + 1;
        }
        n
    }

    /// Counts the occupied cells strictly between two positions sharing a
    /// rank or a file.
    fn count_between(&self, from: Position, to: Position) -> (n: usize)
        requires
            self@.wf(),
            from.on_board(),
            to.on_board(),
        ensures
            n == between_count(self@, from.0 as int, from.1 as int, to.0 as int, to.1 as int),
    {
        if from.file_int() == to.file_int() {
            if from.rank_int() <= to.rank_int() {
                self.count_file_between(from.file(), from.rank(), to.rank())
            } else {
                self.count_file_between(from.file(), to.rank(), from.rank())
            }
        } else {
            if from.file_int() <= to.file_int() {
                self.count_rank_between(from.rank(), from.file(), to.file())
            } else {
                self.count_rank_between(from.rank(), to.file(), from.file())
            }
        }
    }

    /// Decides `pawn_move` for the pawn at `from`.
    fn can_pawn(&self, from: Position, to: Position) -> (b: bool)
        requires
            self@.wf(),
            from.on_board(),
            to.on_board(),
            self@.at(from).kind is Pawn,
        ensures
            b == pawn_move(self@, from.0 as int, from.1 as int, to.0 as int, to.1 as int),
    {
        let p = self.get(from);
        let fr = from.rank_int();
        let ff = from.file_int();
        let tr = to.rank_int();
        let tf = to.file_int();
        let fwd: isize = match p.color {
            PieceColor::Red => 1,
            PieceColor::Black => -1,
        };
        let crossed = match p.color {
            PieceColor::Red => fr >= 5,
            PieceColor::Black => fr <= 4,
        };
        self.test_move(from, to).is_some() && ((tr == fr + fwd && tf == ff) || (crossed && tr == fr
            && (tf == ff + 1 || tf == ff - 1)))
    }

    /// Decides `rook_move` for the rook at `from`.
    fn can_rook(&self, from: Position, to: Position) -> (b: bool)
        requires
            self@.wf(),
            from.on_board(),
            to.on_board(),
        ensures
            b == rook_move(self@, from.0 as int, from.1 as int, to.0 as int, to.1 as int),
    {
        let fr = from.rank_int();
        let ff = from.file_int();
        let tr = to.rank_int();
        let tf = to.file_int();
        if tr == fr && tf == ff {
            return false;
        }
        if tr != fr && tf != ff {
            return false;
        }
        self.count_between(from, to) == 0 && self.test_move(from, to).is_some()
    }

    /// Decides `cannon_move` for the cannon at `from`.
    fn can_cannon(&self, from: Position, to: Position) -> (b: bool)
        requires
            self@.wf(),
            from.on_board(),
            to.on_board(),
        ensures
            b == cannon_move(self@, from.0 as int, from.1 as int, to.0 as int, to.1 as int),
    {
        let fr = from.rank_int();
        let ff = from.file_int();
        let tr = to.rank_int();
        let tf = to.file_int();
        if tr == fr && tf == ff {
            return false;
        }
        if tr != fr && tf != ff {
            return false;
        }
        let screens = self.count_between(from, to);
        let target = self.get(to);
        if !target.is_empty() {
            screens == 1 && self.get(from).is_enemy(target)
        } else {
            screens == 0
        }
    }

    /// Decides `king_move` for the king at `from`.
    fn can_king(&self, from: Position, to: Position) -> (b: bool)
        requires
            self@.wf(),
            from.on_board(),
            to.on_board(),
            self@.at(from).kind is King,
        ensures
            b == king_move(self@, from.0 as int, from.1 as int, to.0 as int, to.1 as int),
    {
        let p = self.get(from);
        let fr = from.rank_int();
        let ff = from.file_int();
        let tr = to.rank_int();
        let tf = to.file_int();
        let step = ((tr == fr && (tf == ff + 1 || tf == ff - 1)) || (tf == ff && (tr == fr + 1 || tr
            == fr - 1))) && in_palace_at(p.color, tr, tf) && self.test_move(from, to).is_some();
        if step {
            return true;
        }
        let ahead = match p.color {
            PieceColor::Red => tr > fr,
            PieceColor::Black => tr < fr,
        };
        let target = self.get(to);
        tf == ff && ahead && target.is_kind(PieceKind::King) && target.color != p.color
            && self.count_between(from, to) == 0
    }

    /// Decides `advisor_move` for the advisor at `from`.
    fn can_advisor(&self, from: Position, to: Position) -> (b: bool)
        requires
            self@.wf(),
            from.on_board(),
            to.on_board(),
            self@.at(from).kind is Advisor,
        ensures
            b == advisor_move(self@, from.0 as int, from.1 as int, to.0 as int, to.1 as int),
    {
        let p = self.get(from);
        let fr = from.rank_int();
        let ff = from.file_int();
        let tr = to.rank_int();
        let tf = to.file_int();
        (tr == fr + 1 || tr == fr - 1) && (tf == ff + 1 || tf == ff - 1) && in_palace_at(
            p.color,
            tr,
            tf,
        ) && self.test_move(from, to).is_some()
    }

    /// Decides `bishop_move` for the bishop at `from`.
    fn can_bishop(&self, from: Position, to: Position) -> (b: bool)
        requires
            self@.wf(),
            from.on_board(),
            to.on_board(),
        ensures
            b == bishop_move(self@, from.0 as int, from.1 as int, to.0 as int, to.1 as int),
    {
        let fr = from.rank_int();
        let ff = from.file_int();
        let tr = to.rank_int();
        let tf = to.file_int();
        if !((tr == fr + 2 || tr == fr - 2) && (tf == ff + 2 || tf == ff - 2)) {
            return false;
        }
        let mr: isize = if tr == fr + 2 {
            fr + 1
        } else {
            fr - 1
        };
        let mf: isize = if tf == ff + 2 {
            ff + 1
        } else {
            ff - 1
        };
        self.get(Position::new_int(mr, mf)).is_empty() && self.test_move(from, to).is_some()
    }

    /// Decides `knight_move` for the knight at `from`.
    fn can_knight(&self, from: Position, to: Position) -> (b: bool)
        requires
            self@.wf(),
            from.on_board(),
            to.on_board(),
        ensures
            b == knight_move(self@, from.0 as int, from.1 as int, to.0 as int, to.1 as int),
    {
        let fr = from.rank_int();
        let ff = from.file_int();
        let tr = to.rank_int();
        let tf = to.file_int();
        let vertical = (tr == fr + 2 || tr == fr - 2) && (tf == ff + 1 || tf == ff - 1);
        let horizontal = (tr == fr + 1 || tr == fr - 1) && (tf == ff + 2 || tf == ff - 2);
        if !vertical && !horizontal {
            return false;
        }
        let leg = if vertical {
            Position::new_int(
                if tr == fr + 2 {
                    fr + 1
                } else {
                    fr - 1
                },
                ff,
            )
        } else {
            Position::new_int(
                fr,
                if tf == ff + 2 {
                    ff + 1
                } else {
                    ff - 1
                },
            )
        };
        self.get(leg).is_empty() && self.test_move(from, to).is_some()
    }

    /// Decides whether the piece at `from` can move to `to`, ignoring the
    /// self-check filter.
    pub fn can_reach(&self, from: Position, to: Position) -> (b: bool)
        requires
            self@.wf(),
        ensures
            b == piece_move(self@, from, to),
    {
        if from.legal().is_none() || to.legal().is_none() {
            return false;
        }
        match self.get(from).kind() {
            PieceKind::Empty => false,
            PieceKind::Pawn => self.can_pawn(from, to),
            PieceKind::Cannon => self.can_cannon(from, to),
            PieceKind::King => self.can_king(from, to),
            PieceKind::Advisor => self.can_advisor(from, to),
            PieceKind::Bishop => self.can_bishop(from, to),
            PieceKind::Knight => self.can_knight(from, to),
            PieceKind::Rook => self.can_rook(from, to),
        }
    }

    /// Appends to `result` every destination the piece at `from` can move
    /// to.
    fn collect_moves(&self, from: Position, result: &mut Vec<Position>)
        requires
            self@.wf(),
            from.on_board(),
        ensures
            forall|p: Position|
                #[trigger] final(result)@.contains(p) <==> old(result)@.contains(p) || piece_move(
                    self@,
                    from,
                    p,
                ),
    {
        for r in 0..10usize
            invariant
                self@.wf(),
                from.on_board(),
                forall|p: Position|
                    #[trigger] result@.contains(p) <==> old(result)@.contains(p) || (piece_move(
                        self@,
                        from,
                        p,
                    ) && p.0 < r),
        {
            for f in 0..9usize
                invariant
                    self@.wf(),
                    from.on_board(),
                    r < 10,
                    forall|p: Position|
                        #[trigger] result@.contains(p) <==> old(result)@.contains(p) || (piece_move(
                            self@,
                            from,
                            p,
                        ) && (p.0 < r || (p.0 == r && p.1 < f))),
            {
                let to = Position::new(r, f);
                if self.can_reach(from, to) {
                    result.push(to);
                }
            }
        }
    }

    /// Pawn move generation: appends the pawn's reachable destinations.
    fn reachable_pawn(&self, from: Position, result: &mut Vec<Position>)
        requires
            self@.wf(),
            from.on_board(),
            self@.at(from).kind is Pawn,
        ensures
            forall|p: Position|
                #[trigger] final(result)@.contains(p) <==> old(result)@.contains(p) || (
                p.on_board() && pawn_move(
                    self@,
                    from.0 as int,
                    from.1 as int,
                    p.0 as int,
                    p.1 as int,
                )),
    {
        self.collect_moves(from, result);
    }

    /// Cannon move generation: appends the cannon's reachable destinations.
    fn reachable_cannon(&self, from: Position, result: &mut Vec<Position>)
        requires
            self@.wf(),
            from.on_board(),
            self@.at(from).kind is Cannon,
        ensures
            forall|p: Position|
                #[trigger] final(result)@.contains(p) <==> old(result)@.contains(p) || (
                p.on_board() && cannon_move(
                    self@,
                    from.0 as int,
                    from.1 as int,
                    p.0 as int,
                    p.1 as int,
                )),
    {
        self.collect_moves(from, result);
    }

    /// King move generation: appends the king's reachable destinations,
    /// including a flying-general capture.
    fn reachable_king(&self, from: Position, result: &mut Vec<Position>)
        requires
            self@.wf(),
            from.on_board(),
            self@.at(from).kind is King,
        ensures
            forall|p: Position|
                #[trigger] final(result)@.contains(p) <==> old(result)@.contains(p) || (
                p.on_board() && king_move(
                    self@,
                    from.0 as int,
                    from.1 as int,
                    p.0 as int,
                    p.1 as int,
                )),
    {
        self.collect_moves(from, result);
    }

    /// Advisor move generation: appends the advisor's reachable
    /// destinations.
    fn reachable_advisor(&self, from: Position, result: &mut Vec<Position>)
        requires
            self@.wf(),
            from.on_board(),
            self@.at(from).kind is Advisor,
        ensures
            forall|p: Position|
                #[trigger] final(result)@.contains(p) <==> old(result)@.contains(p) || (
                p.on_board() && advisor_move(
                    self@,
                    from.0 as int,
                    from.1 as int,
                    p.0 as int,
                    p.1 as int,
                )),
    {
        self.collect_moves(from, result);
    }

    /// Bishop move generation: appends the bishop's reachable
    /// destinations.
    fn reachable_bishop(&self, from: Position, result: &mut Vec<Position>)
        requires
            self@.wf(),
            from.on_board(),
            self@.at(from).kind is Bishop,
        ensures
            forall|p: Position|
                #[trigger] final(result)@.contains(p) <==> old(result)@.contains(p) || (
                p.on_board() && bishop_move(
                    self@,
                    from.0 as int,
                    from.1 as int,
                    p.0 as int,
                    p.1 as int,
                )),
    {
        self.collect_moves(from, result);
    }

    /// Knight move generation: appends the knight's reachable
    /// destinations.
    fn reachable_knight(&self, from: Position, result: &mut Vec<Position>)
        requires
            self@.wf(),
            from.on_board(),
            self@.at(from).kind is Knight,
        ensures
            forall|p: Position|
                #[trigger] final(result)@.contains(p) <==> old(result)@.contains(p) || (
                p.on_board() && knight_move(
                    self@,
                    from.0 as int,
                    from.1 as int,
                    p.0 as int,
                    p.1 as int,
                )),
    {
        self.collect_moves(from, result);
    }

    /// Rook move generation: appends the rook's reachable destinations.
    fn reachable_rook(&self, from: Position, result: &mut Vec<Position>)
        requires
            self@.wf(),
            from.on_board(),
            self@.at(from).kind is Rook,
        ensures
            forall|p: Position|
                #[trigger] final(result)@.contains(p) <==> old(result)@.contains(p) || (
                p.on_board() && rook_move(
                    self@,
                    from.0 as int,
                    from.1 as int,
                    p.0 as int,
                    p.1 as int,
                )),
    {
        self.collect_moves(from, result);
    }

    /// Every destination the piece at `from` can move to, ignoring
    /// whether the move exposes its own king to check.
    pub fn reachable(&self, from: Position) -> (result: Vec<Position>)
        requires
            self@.wf(),
            from.on_board(),
        ensures
            forall|p: Position| #[trigger] result@.contains(p) <==> piece_move(self@, from, p),
    {
        let mut result: Vec<Position> = Vec::new();
        match self.get(from).kind() {
            PieceKind::Empty => {},
            PieceKind::Pawn => self.reachable_pawn(from, &mut result),
            PieceKind::Cannon => self.reachable_cannon(from, &mut result),
            PieceKind::King => self.reachable_king(from, &mut result),
            PieceKind::Advisor => self.reachable_advisor(from, &mut result),
            PieceKind::Bishop => self.reachable_bishop(from, &mut result),
            PieceKind::Knight => self.reachable_knight(from, &mut result),
            PieceKind::Rook => self.reachable_rook(from, &mut result),
        }
        result
    }

    /// True iff the side to move is in check: some enemy piece reaches
    /// the mover's recorded king position.
    pub fn is_check(&self) -> (b: bool)
        requires
            self@.wf(),
        ensures
            b == in_check(self@),
    {
        let king = self.king(self.turn());
        let enemy = self.turn().opposite();
        for r in 0..10usize
            invariant
                self@.wf(),
                king == self@.king_of(self@.turn),
                enemy == self@.turn.spec_opposite(),
                forall|rr: int, ff: int|
                    0 <= rr < r && 0 <= ff < 9 && self@.cell(rr, ff).spec_is_color(
                        self@.turn.spec_opposite(),
                    ) ==> !#[trigger] piece_move(
                        self@,
                        Position(rr as isize, ff as isize),
                        self@.king_of(self@.turn),
                    ),
        {
            for f in 0..9usize
                invariant
                    self@.wf(),
                    r < 10,
                    king == self@.king_of(self@.turn),
                    enemy == self@.turn.spec_opposite(),
                    forall|rr: int, ff: int|
                        0 <= rr < r && 0 <= ff < 9 && self@.cell(rr, ff).spec_is_color(
                            self@.turn.spec_opposite(),
                        ) ==> !#[trigger] piece_move(
                            self@,
                            Position(rr as isize, ff as isize),
                            self@.king_of(self@.turn),
                        ),
                    forall|ff: int|
                        0 <= ff < f && self@.cell(r as int, ff).spec_is_color(
                            self@.turn.spec_opposite(),
                        ) ==> !#[trigger] piece_move(
                            self@,
                            Position(r as isize, ff as isize),
                            self@.king_of(self@.turn),
                        ),
            {
                let pos = Position::new(r, f);
                if self.get(pos).is_color(enemy) {
                    if self.can_reach(pos, king) {
                        proof {
                            assert(pos == Position(r as isize, f as isize));
                            assert(piece_move(
                                self@,
                                Position(r as isize, f as isize),
                                self@.king_of(self@.turn),
                            ));
                        }
                        return true;
                    }
                }
            }
        }
        false
    }
}

proof fn lemma_file_count_empty(v: BoardView, f: int, lo: int, hi: int)
    requires
        forall|r: int| lo < r < hi ==> !(#[trigger] v.occ(r, f)),
    ensures
        file_occ_between(v, f, lo, hi) == 0,
    decreases hi - lo,
{
    if hi - lo > 1 {
        lemma_file_count_empty(v, f, lo, hi - 1);
    }
}

proof fn lemma_rank_count_empty(v: BoardView, r: int, lo: int, hi: int)
    requires
        forall|f: int| lo < f < hi ==> !(#[trigger] v.occ(r, f)),
    ensures
        rank_occ_between(v, r, lo, hi) == 0,
    decreases hi - lo,
{
    if hi - lo > 1 {
        lemma_rank_count_empty(v, r, lo, hi - 1);
    }
}

proof fn lemma_file_count_pos(v: BoardView, f: int, lo: int, hi: int, a: int)
    requires
        lo < a < hi,
        v.occ(a, f),
    ensures
        file_occ_between(v, f, lo, hi) >= 1,
    decreases hi - lo,
{
    if a < hi - 1 {
        lemma_file_count_pos(v, f, lo, hi - 1, a);
    }
}

proof fn lemma_rank_count_pos(v: BoardView, r: int, lo: int, hi: int, a: int)
    requires
        lo < a < hi,
        v.occ(r, a),
    ensures
        rank_occ_between(v, r, lo, hi) >= 1,
    decreases hi - lo,
{
    if a < hi - 1 {
        lemma_rank_count_pos(v, r, lo, hi - 1, a);
    }
}

proof fn lemma_file_count_two(v: BoardView, f: int, lo: int, hi: int, a: int, b: int)
    requires
        lo < a < b < hi,
        v.occ(a, f),
        v.occ(b, f),
    ensures
        file_occ_between(v, f, lo, hi) >= 2,
    decreases hi - lo,
{
    if b < hi - 1 {
        lemma_file_count_two(v, f, lo, hi - 1, a, b);
    } else {
        lemma_file_count_pos(v, f, lo, hi - 1, a);
    }
}

proof fn lemma_rank_count_two(v: BoardView, r: int, lo: int, hi: int, a: int, b: int)
    requires
        lo < a < b < hi,
        v.occ(r, a),
        v.occ(r, b),
    ensures
        rank_occ_between(v, r, lo, hi) >= 2,
    decreases hi - lo,
{
    if b < hi - 1 {
        lemma_rank_count_two(v, r, lo, hi - 1, a, b);
    } else {
        lemma_rank_count_pos(v, r, lo, hi - 1, a);
    }
}

proof fn lemma_file_count_witness(v: BoardView, f: int, lo: int, hi: int) -> (a: int)
    requires
        file_occ_between(v, f, lo, hi) >= 1,
    ensures
        lo < a < hi,
        v.occ(a, f),
    decreases hi - lo,
{
    if v.occ(hi - 1, f) && lo < hi - 1 {
        hi - 1
    } else {
        lemma_file_count_witness(v, f, lo, hi - 1)
    }
}

proof fn lemma_rank_count_witness(v: BoardView, r: int, lo: int, hi: int) -> (a: int)
    requires
        rank_occ_between(v, r, lo, hi) >= 1,
    ensures
        lo < a < hi,
        v.occ(r, a),
    decreases hi - lo,
{
    if v.occ(r, hi - 1) && lo < hi - 1 {
        hi - 1
    } else {
        lemma_rank_count_witness(v, r, lo, hi - 1)
    }
}

/// A rook on an otherwise-empty board reaches exactly the other squares
/// that share its rank or its file, up to the board edge.
pub proof fn lemma_rook_open_board(v: BoardView, from: Position)
    requires
        v.wf(),
        from.on_board(),
        v.at(from).kind is Rook,
        forall|r: int, f: int|
            0 <= r < 10 && 0 <= f < 9 && !(r == from.0 && f == from.1) ==> !(#[trigger] v.occ(
                r,
                f,
            )),
    ensures
        forall|to: Position|
            #[trigger] piece_move(v, from, to) <==> (to.on_board() && !(to.0 == from.0 && to.1
                == from.1) && (to.0 == from.0 || to.1 == from.1)),
{
    assert forall|to: Position|
        #[trigger] piece_move(v, from, to) <==> (to.on_board() && !(to.0 == from.0 && to.1
            == from.1) && (to.0 == from.0 || to.1 == from.1)) by {
        let fr = from.0 as int;
        let ff = from.1 as int;
        let tr = to.0 as int;
        let tf = to.1 as int;
        if to.on_board() && !(tr == fr && tf == ff) && (tr == fr || tf == ff) {
            if tf == ff {
                if fr <= tr {
                    lemma_file_count_empty(v, ff, fr, tr);
                } else {
                    lemma_file_count_empty(v, ff, tr, fr);
                }
            } else {
                if ff <= tf {
                    lemma_rank_count_empty(v, fr, ff, tf);
                } else {
                    lemma_rank_count_empty(v, fr, tf, ff);
                }
            }
            assert(!v.occ(tr, tf));
            assert(rook_move(v, fr, ff, tr, tf));
        }
    }
}

/// A cannon with exactly one screen piece between it and an enemy on
/// its rank or file can capture that enemy, and reaches no square
/// beyond it on that line.
pub proof fn lemma_cannon_screen(v: BoardView, from: Position, to: Position)
    requires
        v.wf(),
        from.on_board(),
        to.on_board(),
        v.at(from).kind is Cannon,
        from.0 == to.0 || from.1 == to.1,
        !(from.0 == to.0 && from.1 == to.1),
        between_count(v, from.0 as int, from.1 as int, to.0 as int, to.1 as int) == 1,
        v.at(from).spec_is_enemy(v.at(to)),
    ensures
        piece_move(v, from, to),
        forall|p: Position|
            p.on_board() && line_beyond(from, to, p) ==> !#[trigger] piece_move(v, from, p),
{
    let fr = from.0 as int;
    let ff = from.1 as int;
    let tr = to.0 as int;
    let tf = to.1 as int;
    assert(v.occ(tr, tf));
    assert(cannon_move(v, fr, ff, tr, tf));
    assert forall|p: Position| p.on_board() && line_beyond(from, to, p) implies !#[trigger] piece_move(
        v,
        from,
        p,
    ) by {
        let pr = p.0 as int;
        let pf = p.1 as int;
        if pf == ff {
            let a = if fr <= tr {
                lemma_file_count_witness(v, ff, fr, tr)
            } else {
                lemma_file_count_witness(v, ff, tr, fr)
            };
            if fr < tr {
                lemma_file_count_two(v, ff, fr, pr, a, tr);
            } else {
                lemma_file_count_two(v, ff, pr, fr, tr, a);
            }
        } else {
            let a = if ff <= tf {
                lemma_rank_count_witness(v, fr, ff, tf)
            } else {
                lemma_rank_count_witness(v, fr, tf, ff)
            };
            if ff < tf {
                lemma_rank_count_two(v, fr, ff, pf, a, tf);
            } else {
                lemma_rank_count_two(v, fr, pf, ff, tf, a);
            }
        }
    }
}

/// `p` lies on the line through `from` and `to`, strictly past `to` as
/// seen from `from`.
pub open spec fn line_beyond(from: Position, to: Position, p: Position) -> bool {
    if from.1 == to.1 {
        p.1 == to.1 && (if from.0 < to.0 {
            p.0 > to.0
        } else {
            p.0 < to.0
        })
    } else {
        p.0 == to.0 && (if from.1 < to.1 {
            p.1 > to.1
        } else {
            p.1 < to.1
        })
    }
}

/// A king directly facing the enemy king on a clear file has that
/// square in its reach, even though the one-step palace rule alone
/// would forbid the destination.
pub proof fn lemma_flying_general(v: BoardView, from: Position, to: Position)
    requires
        v.wf(),
        from.on_board(),
        to.on_board(),
        v.at(from).kind is King,
        v.at(to).kind is King,
        v.at(from).color != v.at(to).color,
        from.1 == to.1,
        (if v.at(from).color is Red {
            to.0 > from.0
        } else {
            to.0 < from.0
        }),
        forall|r: int|
            (if from.0 < to.0 {
                from.0 < r < to.0
            } else {
                to.0 < r < from.0
            }) ==> !(#[trigger] v.occ(r, from.1 as int)),
        !in_palace(v.at(from).color, to.0 as int, to.1 as int),
    ensures
        piece_move(v, from, to),
        !king_step(v, from.0 as int, from.1 as int, to.0 as int, to.1 as int),
{
    let fr = from.0 as int;
    let ff = from.1 as int;
    let tr = to.0 as int;
    let tf = to.1 as int;
    if fr <= tr {
        lemma_file_count_empty(v, ff, fr, tr);
    } else {
        lemma_file_count_empty(v, ff, tr, fr);
    }
    assert(flying_general(v, fr, ff, tr, tf));
}

/// Decides `in_palace`.
fn in_palace_at(color: PieceColor, r: isize, f: isize) -> (b: bool)
    ensures
        b == in_palace(color, r as int, f as int),
{
    3 <= f && f <= 5 && match color {
        PieceColor::Red => 0 <= r && r <= 2,
        PieceColor::Black => 7 <= r && r <= 9,
    }
}

} // verus!
