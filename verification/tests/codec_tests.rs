use xiangqi::board::Board;
use xiangqi::error::Error;
use xiangqi::pieces::{PieceColor, PieceKind};
use xiangqi::position::Position;

fn opening_string() -> String {
    let rows = [
        "rrnrbrarkrarbrnrrr",
        "-r-r-r-r-r-r-r-r-r",
        "-rcr-r-r-r-r-rcr-r",
        "pr-rpr-rpr-rpr-rpr",
        "-r-r-r-r-r-r-r-r-r",
        "-r-r-r-r-r-r-r-r-r",
        "pb-bpb-bpb-bpb-bpb",
        "-bcb-b-b-b-b-bcb-b",
        "-r-r-r-r-r-r-r-r-r",
        "rbnbbbabkbabbbnbrb",
    ];
    format!("{}2/0494r", rows.concat())
}

fn boards_equal(a: &Board, b: &Board) -> bool {
    for r in 0..10 {
        for f in 0..9 {
            let p = Position::new(r, f);
            if a.get(p) != b.get(p) {
                return false;
            }
        }
    }
    a.king(PieceColor::Red) == b.king(PieceColor::Red)
        && a.king(PieceColor::Black) == b.king(PieceColor::Black) && a.turn() == b.turn()
}

#[test]
fn serialize_opening_exact() {
    assert_eq!(Board::new().serialize(), opening_string());
}

#[test]
fn serialize_is_pure() {
    // Two structurally equal boards serialize identically.
    assert_eq!(Board::new().serialize(), Board::new().serialize());
    let mut a = Board::new();
    let mut b = Board::new();
    a.force(Position::new(3, 0), Position::new(4, 0));
    b.force(Position::new(3, 0), Position::new(4, 0));
    a.next_turn();
    b.next_turn();
    assert_eq!(a.serialize(), b.serialize());
}

#[test]
fn round_trip_opening() {
    let b = Board::new();
    let parsed = Board::deserialize(&b.serialize()).expect("round trip");
    assert!(boards_equal(&b, &parsed));
}

#[test]
fn round_trip_after_moves() {
    let mut b = Board::new();
    b.force(Position::new(3, 0), Position::new(4, 0));
    b.next_turn();
    b.force(Position::new(7, 1), Position::new(0, 1));
    b.next_turn();
    let s = b.serialize();
    let parsed = Board::deserialize(&s).expect("round trip");
    assert!(boards_equal(&b, &parsed));
    assert_eq!(parsed.serialize(), s);
    assert_eq!(parsed.turn(), PieceColor::Red);
}

#[test]
fn deserialize_trailing_input_ignored() {
    let mut s = opening_string();
    s.push_str("zzz");
    let parsed = Board::deserialize(&s).expect("prefix parses");
    assert!(boards_equal(&Board::new(), &parsed));
}

#[test]
fn deserialize_rejects_truncated() {
    let s = opening_string();
    assert!(Board::deserialize(&s[..s.len() - 1]).is_err());
    assert_eq!(Board::deserialize("").unwrap_err(), Error);
    assert!(Board::deserialize("rr").is_err());
}

#[test]
fn deserialize_rejects_bad_kind_char() {
    let mut s = opening_string();
    s.replace_range(0..1, "x");
    assert!(Board::deserialize(&s).is_err());
}

#[test]
fn deserialize_rejects_bad_color_char() {
    let mut s = opening_string();
    s.replace_range(1..2, "q");
    assert!(Board::deserialize(&s).is_err());
}

#[test]
fn deserialize_rejects_wrong_king_count() {
    let mut s = opening_string();
    s.replace_range(180..181, "3");
    assert!(Board::deserialize(&s).is_err());
}

#[test]
fn deserialize_rejects_missing_separator() {
    let mut s = opening_string();
    s.replace_range(181..182, "x");
    assert!(Board::deserialize(&s).is_err());
}

#[test]
fn deserialize_rejects_bad_king_digits() {
    let mut s = opening_string();
    s.replace_range(182..183, "a");
    assert!(Board::deserialize(&s).is_err());
    let mut s2 = opening_string();
    // A file coordinate of 9 lies off the board.
    s2.replace_range(183..184, "9");
    assert!(Board::deserialize(&s2).is_err());
}

#[test]
fn deserialize_rejects_bad_turn_char() {
    let mut s = opening_string();
    s.replace_range(186..187, "x");
    assert!(Board::deserialize(&s).is_err());
}

#[test]
fn deserialized_cells_match_tokens() {
    let b = Board::deserialize(&opening_string()).expect("opening");
    assert_eq!(b.get(Position::new(0, 0)).kind(), PieceKind::Rook);
    assert_eq!(b.get(Position::new(0, 4)).kind(), PieceKind::King);
    assert_eq!(b.get(Position::new(2, 1)).kind(), PieceKind::Cannon);
    assert_eq!(b.get(Position::new(9, 4)).color(), Some(PieceColor::Black));
    assert!(b.get(Position::new(4, 4)).is_empty());
}
