use vstd::prelude::*;

use crate::board::{Board, BoardView, force_view};
use crate::client::Connection;
use crate::pieces::PieceColor;
use crate::position::Position;
use crate::rules::{in_check, piece_move};
use crate::wire::PlayRequest;

verus! {

broadcast use vstd::seq_lib::group_seq_properties;

/// `(from, to)` is a legal move on `v`: the mover's own piece can reach
/// `to`, and the resulting board does not leave the mover's own king in
/// check.
pub open spec fn legal_move(v: BoardView, from: Position, to: Position) -> bool {
    &&& v.at(from).spec_is_color(v.turn)
    &&& piece_move(v, from, to)
    &&& !in_check(force_view(v, from, to))
}

/// The legal-move mapping of the side to move, as the set of its
/// `(from, to)` pairs.
#[derive(Debug)]
pub struct Moves {
    pub moves: Vec<(Position, Position)>,
}

impl Moves {
    /// True iff the mapping holds `(from, to)`. A source with no entry
    /// and one with an empty entry are alike: neither contributes a
    /// pair.
    pub fn contains(&self, from: Position, to: Position) -> (b: bool)
        ensures
            b == self.moves@.contains((from, to)),
    {
        let mut i: usize = 0;
        while i < self.moves.len()
            invariant
                i <= self.moves@.len(),
                forall|j: int| 0 <= j < i ==> self.moves@[j] != (from, to),
            decreases self.moves@.len() - i,
        {
            let (a, b) = self.moves[i];
            if a == from && b == to {
                return true;
            }
            i = i + 1;
        }
        false
    }
}

impl Default for Moves {
    /// The empty mapping.
    fn default() -> (r: Self)
        ensures
            r.moves@ == Seq::<(Position, Position)>::empty(),
    {
        Moves { moves: Vec::new() }
    }
}

/// Computes the legal-move mapping of the side to move: every candidate
/// `(from, to)` of the mover's pieces, kept exactly when applying it
/// leaves the mover's own king out of check. Each candidate is evaluated
/// independently against a copy of the board.
pub fn legal_moves(board: &Board) -> (m: Moves)
    requires
        board@.wf(),
    ensures
        forall|from: Position, to: Position|
            #[trigger] m.moves@.contains((from, to)) <==> legal_move(board@, from, to),
{
    let mut result: Vec<(Position, Position)> = Vec::new();
    for r in 0..10usize
        invariant
            board@.wf(),
            forall|a: Position, b: Position|
                #[trigger] result@.contains((a, b)) <==> legal_move(board@, a, b) && a.0 < r,
    {
        for f in 0..9usize
            invariant
                board@.wf(),
                r < 10,
                forall|a: Position, b: Position|
                    #[trigger] result@.contains((a, b)) <==> legal_move(board@, a, b) && (a.0 < r
                        || (a.0 == r && a.1 < f)),
        {
            let from = Position::new(r, f);
            if board.get(from).is_color(board.turn()) {
                let reach = board.reachable(from);
                let mut i: usize = 0;
                while i < reach.len()
                    invariant
                        board@.wf(),
                        r < 10,
                        f < 9,
                        from == Position(r as isize, f as isize),
                        from.on_board(),
                        board@.at(from).spec_is_color(board@.turn),
                        i <= reach@.len(),
                        forall|p: Position|
                            #[trigger] reach@.contains(p) <==> piece_move(board@, from, p),
                        forall|a: Position, b: Position|
                            #[trigger] result@.contains((a, b)) <==> legal_move(board@, a, b) && (
                            a.0 < r || (a.0 == r && a.1 < f) || (a == from && reach@.take(
                                i as int,
                            ).contains(b))),
                    decreases reach@.len() - i,
                {
                    let to = reach[i];
                    proof {
                        assert(reach@.contains(reach@[i as int]));
                        assert(piece_move(board@, from, to));
                    }
                    let mut probe = board.duplicate();
                    probe.force(from, to);
                    if !probe.is_check() {
                        result.push((from, to));
                    }
                    proof {
                        assert(reach@.take(i + 1).contains(reach@[i as int]));
                        assert forall|b: Position| #[trigger] reach@.take(i + 1).contains(b)
                            implies reach@.take(i as int).contains(b) || b == reach@[i as int] by {
                            let j = reach@.take(i + 1).lemma_contains_to_index(b);
                            if j < i {
                                assert(reach@.take(i as int)[j] == b);
                            }
                        }
                    }
                    i = i + 1;
                }
                proof {
                    assert(reach@.take(reach@.len() as int) =~= reach@);
                }
            }
        }
    }
    Moves { moves: result }
}

/// The legality filter, restated: a pair of the legal-move mapping never
/// leaves the mover's own king in check, and a reachable pair excluded
/// from the mapping always does.
pub proof fn lemma_legal_move_filter(v: BoardView, from: Position, to: Position)
    ensures
        legal_move(v, from, to) ==> !in_check(force_view(v, from, to)),
        v.at(from).spec_is_color(v.turn) && piece_move(v, from, to) && !legal_move(v, from, to)
            ==> in_check(force_view(v, from, to)),
{
}

/// Validates a move intent before anything is sent: the connection must
/// be established, it must be the player's turn, both cells must lie on
/// the board, and the pair must be in the legal-move mapping.
pub fn verify_move(conn: &Connection, board: &Board, moves: &Moves, from: Position, to: Position)
    -> (ok: bool)
    ensures
        ok == (match conn.player {
            Some(p) => board@.turn == p.color && from.on_board() && to.on_board()
                && moves.moves@.contains((from, to)),
            None => false,
        }),
{
    let player = match &conn.player {
        Some(p) => *p,
        None => {
            return false;
        },
    };
    if !(board.turn() == player.color) {
        return false;
    }
    if from.legal().is_none() || to.legal().is_none() {
        return false;
    }
    moves.contains(from, to)
}

/// Applies a validated move to the local board, passes the turn, and
/// builds the `play` request carrying the serialized new position.
pub fn do_move(board: &mut Board, room: u64, color: PieceColor, from: Position, to: Position) -> (
    req: PlayRequest)
    requires
        old(board)@.wf(),
        from.on_board(),
        to.on_board(),
    ensures
        final(board)@ == (BoardView {
            turn: old(board)@.turn.spec_opposite(),
            ..force_view(old(board)@, from, to)
        }),
        final(board)@.wf(),
        req.room == room,
        req.player == color.spec_tag(),
        req.board@ == crate::codec::spec_serialize(final(board)@),
{
    board.force(from, to);
    board.next_turn();
    let s = board.serialize();
    PlayRequest { room, player: color.tag(), board: s }
}

} // verus!
