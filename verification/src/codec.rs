use vstd::prelude::*;

use crate::board::{Board, BoardView};
use crate::error::Error;
use crate::pieces::{Piece, PieceColor, PieceKind};
use crate::position::Position;

verus! {

/// The character encoding a piece kind.
pub open spec fn kind_char(k: PieceKind) -> char {
    match k {
        PieceKind::Empty => '-',
        PieceKind::Pawn => 'p',
        PieceKind::Cannon => 'c',
        PieceKind::King => 'k',
        PieceKind::Advisor => 'a',
        PieceKind::Bishop => 'b',
        PieceKind::Knight => 'n',
        PieceKind::Rook => 'r',
    }
}

/// True iff `c` encodes some piece kind.
pub open spec fn is_kind_char(c: char) -> bool {
    c == '-' || c == 'p' || c == 'c' || c == 'k' || c == 'a' || c == 'b' || c == 'n' || c == 'r'
}

/// The piece kind a character encodes (`Empty` for any non-kind
/// character; validity is `is_kind_char`).
pub open spec fn kind_of_char(c: char) -> PieceKind {
    if c == 'p' {
        PieceKind::Pawn
    } else if c == 'c' {
        PieceKind::Cannon
    } else if c == 'k' {
        PieceKind::King
    } else if c == 'a' {
        PieceKind::Advisor
    } else if c == 'b' {
        PieceKind::Bishop
    } else if c == 'n' {
        PieceKind::Knight
    } else if c == 'r' {
        PieceKind::Rook
    } else {
        PieceKind::Empty
    }
}

/// The character encoding a piece color. Black's `b` also serves as the
/// Bishop kind token; the two are disambiguated by position, not by
/// value.
pub open spec fn color_char(c: PieceColor) -> char {
    match c {
        PieceColor::Red => 'r',
        PieceColor::Black => 'b',
    }
}

/// True iff `c` encodes a color.
pub open spec fn is_color_char(c: char) -> bool {
    c == 'r' || c == 'b'
}

/// The color a character encodes (Red for any non-color character;
/// validity is `is_color_char`).
pub open spec fn color_of_char(c: char) -> PieceColor {
    if c == 'b' {
        PieceColor::Black
    } else {
        PieceColor::Red
    }
}

/// The ASCII digit for a coordinate value in 0..=9.
pub open spec fn digit_char(n: int) -> char {
    if n == 0 {
        '0'
    } else if n == 1 {
        '1'
    } else if n == 2 {
        '2'
    } else if n == 3 {
        '3'
    } else if n == 4 {
        '4'
    } else if n == 5 {
        '5'
    } else if n == 6 {
        '6'
    } else if n == 7 {
        '7'
    } else if n == 8 {
        '8'
    } else {
        '9'
    }
}

/// The value of an ASCII digit, or `-1` for any other character.
pub open spec fn digit_val(c: char) -> int {
    if c == '0' {
        0
    } else if c == '1' {
        1
    } else if c == '2' {
        2
    } else if c == '3' {
        3
    } else if c == '4' {
        4
    } else if c == '5' {
        5
    } else if c == '6' {
        6
    } else if c == '7' {
        7
    } else if c == '8' {
        8
    } else if c == '9' {
        9
    } else {
        -1
    }
}

/// The character at offset `i` of the board-string encoding of `v`:
/// 90 two-character cell tokens in rank-major order, the king count `2`,
/// a `/`, two two-digit king positions, and the turn character.
pub open spec fn ser_char(v: BoardView, i: int) -> char {
    if i < 180 {
        let r = (i / 2) / 9;
        let f = (i / 2) % 9;
        if i % 2 == 0 {
            kind_char(v.cell(r, f).kind)
        } else {
            color_char(v.cell(r, f).color)
        }
    } else if i == 180 {
        '2'
    } else if i == 181 {
        '/'
    } else if i == 182 {
        digit_char(v.kings[0].0 as int)
    } else if i == 183 {
        digit_char(v.kings[0].1 as int)
    } else if i == 184 {
        digit_char(v.kings[1].0 as int)
    } else if i == 185 {
        digit_char(v.kings[1].1 as int)
    } else {
        color_char(v.turn)
    }
}

/// The 187-character board-string encoding of `v`.
pub open spec fn spec_serialize(v: BoardView) -> Seq<char> {
    Seq::new(187, |i: int| ser_char(v, i))
}

/// `s` starts with a syntactically valid board string: 90 valid cell
/// tokens, the king count `2`, the separator, two in-range king
/// coordinate tokens, and a valid turn character. Characters beyond
/// offset 186 are ignored.
pub open spec fn wire_ok(s: Seq<char>) -> bool {
    &&& s.len() >= 187
    &&& forall|j: int|
        0 <= j < 180 ==> (if j % 2 == 0 {
            is_kind_char(#[trigger] s[j])
        } else {
            is_color_char(s[j])
        })
    &&& s[180] == '2'
    &&& s[181] == '/'
    &&& 0 <= digit_val(s[182]) < 10
    &&& 0 <= digit_val(s[183]) < 9
    &&& 0 <= digit_val(s[184]) < 10
    &&& 0 <= digit_val(s[185]) < 9
    &&& is_color_char(s[186])
}

/// The board value a valid board string encodes.
pub open spec fn decode(s: Seq<char>) -> BoardView {
    BoardView {
        cells: Seq::new(
            10,
            |r: int|
                Seq::new(
                    9,
                    |f: int|
                        Piece {
                            kind: kind_of_char(s[18 * r + 2 * f]),
                            color: color_of_char(s[18 * r + 2 * f + 1]),
                        },
                ),
        ),
        kings: seq![
            Position(digit_val(s[182]) as isize, digit_val(s[183]) as isize),
            Position(digit_val(s[184]) as isize, digit_val(s[185]) as isize),
        ],
        turn: color_of_char(s[186]),
    }
}

/// Offset arithmetic for the cell token of rank `r`, file `f`.
proof fn lemma_cell_offset(r: int, f: int)
    requires
        0 <= r < 10,
        0 <= f < 9,
    ensures
        0 <= 18 * r + 2 * f < 180,
        (18 * r + 2 * f) % 2 == 0,
        (18 * r + 2 * f + 1) % 2 == 1,
        ((18 * r + 2 * f) / 2) / 9 == r,
        ((18 * r + 2 * f) / 2) % 9 == f,
        ((18 * r + 2 * f + 1) / 2) / 9 == r,
        ((18 * r + 2 * f + 1) / 2) % 9 == f,
{
    let i = 18 * r + 2 * f;
    assert(i == 2 * (9 * r + f));
    assert(i / 2 == 9 * r + f);
    assert((i + 1) / 2 == 9 * r + f);
    assert((9 * r + f) / 9 == r);
    assert((9 * r + f) % 9 == f);
}

/// Offset arithmetic from a raw cell-token offset `j` back to its rank
/// and file.
proof fn lemma_offset_cell(j: int)
    requires
        0 <= j < 180,
    ensures
        0 <= (j / 2) / 9 < 10,
        0 <= (j / 2) % 9 < 9,
        j % 2 == 0 ==> j == 18 * ((j / 2) / 9) + 2 * ((j / 2) % 9),
        j % 2 == 1 ==> j == 18 * ((j / 2) / 9) + 2 * ((j / 2) % 9) + 1,
{
    let q = j / 2;
    assert(j == 2 * q + j % 2);
    assert(0 <= q < 90);
    assert(q == 9 * (q / 9) + q % 9);
}

impl Board {
    /// The board-string encoding of this board, the sole transmitted
    /// state representation: for each
    /// of the 90 cells a kind character and a color character, then the
    /// king count, `/`, the two king positions as digit pairs, and the
    /// turn character.
    pub fn serialize(&self) -> (s: String)
        requires
            self@.wf(),
        ensures
            s@ == spec_serialize(self@),
    {
        let mut out = String::new();
        for r in 0..10usize
            invariant
                self@.wf(),
                out@.len() == 18 * r,
                forall|i: int| 0 <= i < out@.len() ==> out@[i] == ser_char(self@, i),
        {
            for f in 0..9usize
                invariant
                    self@.wf(),
                    r < 10,
                    out@.len() == 18 * r + 2 * f,
                    forall|i: int| 0 <= i < out@.len() ==> out@[i] == ser_char(self@, i),
            {
                let p = self.get(Position::new(r, f));
                out.append(kind_str(p.kind()));
                out.append(color_str(p.color));
                proof {
                    lemma_cell_offset(r as int, f as int);
                }
            }
        }
        out.append("2");
        out.append("/");
        proof {
            reveal_strlit("2");
            reveal_strlit("/");
        }
        let k0 = self.king(PieceColor::Red);
        let k1 = self.king(PieceColor::Black);
        out.append(digit_str(k0.rank()));
        out.append(digit_str(k0.file()));
        out.append(digit_str(k1.rank()));
        out.append(digit_str(k1.file()));
        out.append(color_str(self.turn()));
        proof {
            assert(out@ =~= spec_serialize(self@));
        }
        out
    }

    /// Parses a board string. Fails atomically with the uniform error on
    /// any malformed token; on success the returned board is exactly the
    /// decoded value, and well-formed.
    pub fn deserialize(s: &str) -> (r: Result<Board, Error>)
        ensures
            wire_ok(s@) ==> (r matches Ok(b) && b@ == decode(s@) && b@.wf()),
            !wire_ok(s@) ==> r is Err,
    {
        let n = s.unicode_len();
        if n < 187 {
            return Err(Error);
        }
        let mut content: Vec<Vec<Piece>> = Vec::new();
        for r in 0..10usize
            invariant
                s@.len() >= 187,
                content@.len() == r,
                forall|j: int|
                    0 <= j < 18 * r ==> (if j % 2 == 0 {
                        is_kind_char(#[trigger] s@[j])
                    } else {
                        is_color_char(s@[j])
                    }),
                forall|rr: int|
                    0 <= rr < r ==> (#[trigger] content@[rr])@.len() == 9 && forall|ff: int|
                        0 <= ff < 9 ==> content@[rr]@[ff] == (Piece {
                            kind: kind_of_char(s@[18 * rr + 2 * ff]),
                            color: color_of_char(s@[18 * rr + 2 * ff + 1]),
                        }),
        {
            let mut row: Vec<Piece> = Vec::new();
            for f in 0..9usize
                invariant
                    s@.len() >= 187,
                    r < 10,
                    row@.len() == f,
                    forall|j: int|
                        0 <= j < 18 * r + 2 * f ==> (if j % 2 == 0 {
                            is_kind_char(#[trigger] s@[j])
                        } else {
                            is_color_char(s@[j])
                        }),
                    forall|ff: int|
                        0 <= ff < f ==> row@[ff] == (Piece {
                            kind: kind_of_char(s@[18 * (r as int) + 2 * ff]),
                            color: color_of_char(s@[18 * (r as int) + 2 * ff + 1]),
                        }),
            {
                let idx = 18 * r + 2 * f;
                let kc = s.get_char(idx);
                let cc = s.get_char(idx + 1);
                let kind = match kind_from_char(kc) {
                    Ok(k) => k,
                    Err(e) => {
                        proof {
                            lemma_cell_offset(r as int, f as int);
                        }
                        return Err(e);
                    },
                };
                let color = match color_from_char(cc) {
                    Ok(c) => c,
                    Err(e) => {
                        proof {
                            lemma_cell_offset(r as int, f as int);
                        }
                        return Err(e);
                    },
                };
                row.push(Piece::new(kind, color));
                proof {
                    lemma_cell_offset(r as int, f as int);
                    assert forall|j: int| 0 <= j < 18 * (r as int) + 2 * (f as int) + 2 implies (
                    if j % 2 == 0 {
                        is_kind_char(#[trigger] s@[j])
                    } else {
                        is_color_char(s@[j])
                    }) by {
                        if j == 18 * (r as int) + 2 * (f as int) {
                            assert(s@[j] == kc);
                        } else if j == 18 * (r as int) + 2 * (f as int) + 1 {
                            assert(s@[j] == cc);
                        }
                    }
                }
            }
            content.push(row);
        }
        if !(s.get_char(180) == '2') {
            return Err(Error);
        }
        if !(s.get_char(181) == '/') {
            return Err(Error);
        }
        let d0 = match digit_from_char(s.get_char(182)) {
            Ok(d) => d,
            Err(e) => {
                return Err(e);
            },
        };
        let d1 = match digit_from_char(s.get_char(183)) {
            Ok(d) => d,
            Err(e) => {
                return Err(e);
            },
        };
        let d2 = match digit_from_char(s.get_char(184)) {
            Ok(d) => d,
            Err(e) => {
                return Err(e);
            },
        };
        let d3 = match digit_from_char(s.get_char(185)) {
            Ok(d) => d,
            Err(e) => {
                return Err(e);
            },
        };
        if d1 >= 9 || d3 >= 9 {
            return Err(Error);
        }
        let turn = match color_from_char(s.get_char(186)) {
            Ok(c) => c,
            Err(e) => {
                return Err(e);
            },
        };
        let mut kings: Vec<Position> = Vec::new();
        kings.push(Position::new_int(d0 as isize, d1 as isize));
        kings.push(Position::new_int(d2 as isize, d3 as isize));
        let board = Board::from_parts(content, kings, turn);
        proof {
            assert(wire_ok(s@));
            assert(board@.cells =~~= decode(s@).cells) by {
                assert forall|rr: int, ff: int| 0 <= rr < 10 && 0 <= ff < 9 implies board@.cells[rr][ff]
                    == decode(s@).cells[rr][ff] by {
                    lemma_cell_offset(rr, ff);
                }
            }
            assert(board@.kings =~= decode(s@).kings);
            assert(board@ =~~= decode(s@));
        }
        Ok(board)
    }
}

/// The round trip: deserializing the serialization of any well-formed
/// board value reproduces every cell, both king positions, and the turn.
pub proof fn lemma_round_trip(v: BoardView)
    requires
        v.wf(),
    ensures
        wire_ok(spec_serialize(v)),
        decode(spec_serialize(v)) == v,
{
    let s = spec_serialize(v);
    assert forall|j: int| 0 <= j < 180 implies (if j % 2 == 0 {
        is_kind_char(#[trigger] s[j])
    } else {
        is_color_char(s[j])
    }) by {
        lemma_offset_cell(j);
    }
    assert(wire_ok(s));
    assert forall|r: int, f: int| 0 <= r < 10 && 0 <= f < 9 implies decode(s).cells[r][f]
        == v.cells[r][f] by {
        lemma_cell_offset(r, f);
        assert(s[18 * r + 2 * f] == kind_char(v.cell(r, f).kind));
        assert(s[18 * r + 2 * f + 1] == color_char(v.cell(r, f).color));
    }
    assert(decode(s).cells =~~= v.cells);
    assert(decode(s).kings =~= v.kings);
    assert(decode(s) =~~= v);
}

/// Serialization is a pure function of the board value: two boards with
/// equal values serialize identically.
pub proof fn lemma_serialize_deterministic(v1: BoardView, v2: BoardView)
    requires
        v1 == v2,
    ensures
        spec_serialize(v1) == spec_serialize(v2),
{
}

/// The one-character token of a piece kind.
fn kind_str(k: PieceKind) -> (s: &'static str)
    ensures
        s@.len() == 1,
        s@[0] == kind_char(k),
{
    proof {
        reveal_strlit("-");
        reveal_strlit("p");
        reveal_strlit("c");
        reveal_strlit("k");
        reveal_strlit("a");
        reveal_strlit("b");
        reveal_strlit("n");
        reveal_strlit("r");
    }
    match k {
        PieceKind::Empty => "-",
        PieceKind::Pawn => "p",
        PieceKind::Cannon => "c",
        PieceKind::King => "k",
        PieceKind::Advisor => "a",
        PieceKind::Bishop => "b",
        PieceKind::Knight => "n",
        PieceKind::Rook => "r",
    }
}

/// The one-character token of a color.
fn color_str(c: PieceColor) -> (s: &'static str)
    ensures
        s@.len() == 1,
        s@[0] == color_char(c),
{
    proof {
        reveal_strlit("r");
        reveal_strlit("b");
    }
    match c {
        PieceColor::Red => "r",
        PieceColor::Black => "b",
    }
}

/// The one-character token of a coordinate value in 0..=9.
fn digit_str(d: usize) -> (s: &'static str)
    requires
        d < 10,
    ensures
        s@.len() == 1,
        s@[0] == digit_char(d as int),
{
    proof {
        reveal_strlit("0");
        reveal_strlit("1");
        reveal_strlit("2");
        reveal_strlit("3");
        reveal_strlit("4");
        reveal_strlit("5");
        reveal_strlit("6");
        reveal_strlit("7");
        reveal_strlit("8");
        reveal_strlit("9");
    }
    if d == 0 {
        "0"
    } else if d == 1 {
        "1"
    } else if d == 2 {
        "2"
    } else if d == 3 {
        "3"
    } else if d == 4 {
        "4"
    } else if d == 5 {
        "5"
    } else if d == 6 {
        "6"
    } else if d == 7 {
        "7"
    } else if d == 8 {
        "8"
    } else {
        "9"
    }
}

/// The piece kind a character encodes, or the uniform error.
pub fn kind_from_char(c: char) -> (r: Result<PieceKind, Error>)
    ensures
        r is Ok <==> is_kind_char(c),
        r matches Ok(k) ==> k == kind_of_char(c),
{
    match c {
        '-' => Ok(PieceKind::Empty),
        'p' => Ok(PieceKind::Pawn),
        'c' => Ok(PieceKind::Cannon),
        'k' => Ok(PieceKind::King),
        'a' => Ok(PieceKind::Advisor),
        'b' => Ok(PieceKind::Bishop),
        'n' => Ok(PieceKind::Knight),
        'r' => Ok(PieceKind::Rook),
        _ => Err(Error),
    }
}

/// The color a character encodes, or the uniform error.
pub fn color_from_char(c: char) -> (r: Result<PieceColor, Error>)
    ensures
        r is Ok <==> is_color_char(c),
        r matches Ok(k) ==> k == color_of_char(c),
{
    match c {
        'r' => Ok(PieceColor::Red),
        'b' => Ok(PieceColor::Black),
        _ => Err(Error),
    }
}

/// The value of an ASCII digit, or the uniform error.
pub fn digit_from_char(c: char) -> (r: Result<usize, Error>)
    ensures
        r is Ok <==> 0 <= digit_val(c),
        r matches Ok(d) ==> d == digit_val(c),
{
    match c {
        '0' => Ok(0),
        '1' => Ok(1),
        '2' => Ok(2),
        '3' => Ok(3),
        '4' => Ok(4),
        '5' => Ok(5),
        '6' => Ok(6),
        '7' => Ok(7),
        '8' => Ok(8),
        '9' => Ok(9),
        _ => Err(Error),
    }
}

} // verus!
