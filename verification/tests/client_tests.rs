use xiangqi::board::Board;
use xiangqi::client::{
    room_code_id, BoardInfo, Connection, GameJustStarted, MenuContents, PrevClick, Status,
};
use xiangqi::moves::{do_move, legal_moves, verify_move, Moves};
use xiangqi::pieces::{PieceColor, PieceKind};
use xiangqi::position::Position;
use xiangqi::wire::{ConnectResponse, QueryResponse};

fn board_from(cells: &[(usize, usize, &str)], kings: &str, turn: char) -> Board {
    let mut tokens: Vec<String> = Vec::new();
    for _ in 0..90 {
        tokens.push("-r".to_string());
    }
    for (r, f, tok) in cells {
        tokens[r * 9 + f] = tok.to_string();
    }
    let s = format!("{}2/{}{}", tokens.concat(), kings, turn);
    Board::deserialize(&s).expect("valid board string")
}

#[test]
fn legal_moves_exclude_self_check() {
    // The red rook at (5,4) shields its king from the black rook: it may
    // slide along the file but never leave it.
    let b = board_from(
        &[(0, 4, "kr"), (9, 0, "kb"), (5, 4, "rr"), (8, 4, "rb")],
        "0490",
        'r',
    );
    let moves = legal_moves(&b);
    assert!(moves.contains(Position::new(5, 4), Position::new(4, 4)));
    assert!(moves.contains(Position::new(5, 4), Position::new(6, 4)));
    assert!(moves.contains(Position::new(5, 4), Position::new(8, 4)));
    // Sideways is reachable but leaves the king in check: excluded.
    let reach = b.reachable(Position::new(5, 4));
    assert!(reach.contains(&Position::new(5, 0)));
    assert!(!moves.contains(Position::new(5, 4), Position::new(5, 0)));
    // Applying an excluded reachable move indeed leaves the mover checked.
    let mut probe = b.duplicate();
    probe.force(Position::new(5, 4), Position::new(5, 0));
    assert!(probe.is_check());
    // Applying a kept move does not.
    let mut probe2 = b.duplicate();
    probe2.force(Position::new(5, 4), Position::new(4, 4));
    assert!(!probe2.is_check());
}

#[test]
fn legal_moves_opening_sample() {
    let b = Board::new();
    let moves = legal_moves(&b);
    // Red to move: a pawn push and a knight development are legal.
    assert!(moves.contains(Position::new(3, 0), Position::new(4, 0)));
    assert!(moves.contains(Position::new(0, 1), Position::new(2, 2)));
    // Black pieces contribute nothing on red's turn.
    assert!(!moves.contains(Position::new(6, 0), Position::new(5, 0)));
    // A square held by an own piece is never a legal destination.
    assert!(!moves.contains(Position::new(0, 0), Position::new(0, 1)));
}

#[test]
fn verify_move_rejections() {
    let b = Board::new();
    let moves = legal_moves(&b);
    let from = Position::new(3, 0);
    let to = Position::new(4, 0);
    let no_conn = Connection::default();
    assert!(!verify_move(&no_conn, &b, &moves, from, to));
    let mut conn = Connection::default();
    conn.assign(false); // red
    assert!(verify_move(&conn, &b, &moves, from, to));
    // Not the player's turn.
    let mut black = Connection::default();
    black.assign(true);
    assert!(!verify_move(&black, &b, &moves, from, to));
    // Off-board click.
    assert!(!verify_move(&conn, &b, &moves, Position::new_int(-1, 0), to));
    assert!(!verify_move(&conn, &b, &moves, from, Position::new(9, 9)));
    // Not in the mapping.
    assert!(!verify_move(&conn, &b, &moves, from, Position::new(5, 0)));
    // An empty mapping rejects everything.
    let empty = Moves::default();
    assert!(!verify_move(&conn, &b, &empty, from, to));
}

#[test]
fn do_move_applies_and_builds_request() {
    let mut b = Board::new();
    let req = do_move(&mut b, 77, PieceColor::Red, Position::new(3, 0), Position::new(4, 0));
    assert_eq!(req.room, 77);
    assert!(!req.player);
    assert_eq!(b.turn(), PieceColor::Black);
    assert!(b.get(Position::new(3, 0)).is_empty());
    assert!(b.get(Position::new(4, 0)).is_kind(PieceKind::Pawn));
    assert_eq!(req.board, b.serialize());
    let parsed = Board::deserialize(&req.board).expect("request board parses");
    assert_eq!(parsed.turn(), PieceColor::Black);
}

#[test]
fn board_info_round_trip_and_atomic_failure() {
    let mut info = BoardInfo::default();
    let mut changed = BoardInfo::default();
    changed.board.force(Position::new(3, 0), Position::new(4, 0));
    let s = changed.se();
    info.de(&s);
    assert!(info.board.get(Position::new(3, 0)).is_empty());
    assert_eq!(info.se(), s);
    // A malformed string leaves the prior board untouched.
    info.de("garbage");
    assert_eq!(info.se(), s);
}

#[test]
fn room_code_hash_values() {
    assert_eq!(room_code_id(""), 0);
    assert_eq!(room_code_id("A"), 65);
    // 'a' + 'b' * 131
    assert_eq!(room_code_id("ab"), 97 + 98 * 131);
    // The hash is order sensitive.
    assert_ne!(room_code_id("ab"), room_code_id("ba"));
}

#[test]
fn connection_state() {
    let mut conn = Connection::default();
    assert!(!conn.is_connected());
    assert_eq!(conn.room, 0);
    conn.assign(true);
    assert!(conn.is_connected());
    assert_eq!(conn.player.as_ref().unwrap().color, PieceColor::Black);
    conn.assign(false);
    assert_eq!(conn.player.as_ref().unwrap().color, PieceColor::Red);
}

#[test]
fn small_state_defaults() {
    assert_eq!(Status::default(), Status::Menu);
    assert_eq!(PrevClick::default().0, None);
    assert!(GameJustStarted::default().0);
    let menu = MenuContents::default();
    assert_eq!(menu.url, "http://127.0.0.1:8082");
    assert_eq!(menu.room, "example-room-code");
    let cr = ConnectResponse::default();
    assert!(!cr.player);
    assert!(!cr.ok);
    assert_eq!(QueryResponse::default().board, None);
}
