use xiangqi::board::Board;
use xiangqi::pieces::{Piece, PieceColor, PieceKind};
use xiangqi::position::{DiagDir, MoveDir, Position};

fn board_from(cells: &[(usize, usize, &str)], kings: &str, turn: char) -> Board {
    let mut tokens: Vec<String> = Vec::new();
    for _ in 0..90 {
        tokens.push("-r".to_string());
    }
    for (r, f, tok) in cells {
        tokens[r * 9 + f] = tok.to_string();
    }
    let s = format!("{}2/{}{}", tokens.concat(), kings, turn);
    Board::deserialize(&s).expect("valid board string")
}

#[test]
fn opening_piece_counts() {
    let b = Board::new();
    let mut total = 0;
    let mut red = 0;
    let mut black = 0;
    let mut red_kings = 0;
    let mut black_kings = 0;
    for r in 0..10 {
        for f in 0..9 {
            let p = b.get(Position::new(r, f));
            if !p.is_empty() {
                total += 1;
                match p.color() {
                    Some(PieceColor::Red) => red += 1,
                    Some(PieceColor::Black) => black += 1,
                    None => panic!("non-empty piece without color"),
                }
                if p.is_kind(PieceKind::King) {
                    match p.color().unwrap() {
                        PieceColor::Red => red_kings += 1,
                        PieceColor::Black => black_kings += 1,
                    }
                }
            }
        }
    }
    assert_eq!(total, 32);
    assert_eq!(red, 16);
    assert_eq!(black, 16);
    assert_eq!(red_kings, 1);
    assert_eq!(black_kings, 1);
    assert_eq!(b.king(PieceColor::Red), Position::new(0, 4));
    assert_eq!(b.king(PieceColor::Black), Position::new(9, 4));
    assert_eq!(b.turn(), PieceColor::Red);
}

#[test]
fn piece_predicates() {
    let red_pawn = Piece::new(PieceKind::Pawn, PieceColor::Red);
    let black_rook = Piece::new(PieceKind::Rook, PieceColor::Black);
    let red_king = Piece::new(PieceKind::King, PieceColor::Red);
    let empty = Piece::empty();
    assert!(empty.is_empty());
    assert!(!red_pawn.is_empty());
    assert!(red_pawn.is_enemy(black_rook));
    assert!(!red_pawn.is_enemy(empty));
    assert!(!red_pawn.is_enemy(red_king));
    assert!(red_pawn.is_ally(red_king));
    assert!(!red_pawn.is_ally(black_rook));
    assert!(!red_pawn.is_ally(empty));
    assert!(red_pawn.is_steppable(empty));
    assert!(red_pawn.is_steppable(black_rook));
    assert!(!red_pawn.is_steppable(red_king));
    assert!(red_pawn.is_kind(PieceKind::Pawn));
    assert!(!red_pawn.is_kind(PieceKind::Rook));
    assert!(red_pawn.is_color(PieceColor::Red));
    assert!(!red_pawn.is_color(PieceColor::Black));
    assert!(!empty.is_color(PieceColor::Red));
    assert_eq!(red_pawn.kind(), PieceKind::Pawn);
    assert_eq!(empty.color(), None);
    assert_eq!(black_rook.color(), Some(PieceColor::Black));
    assert_eq!(PieceColor::Red.opposite(), PieceColor::Black);
    assert_eq!(PieceColor::Black.opposite(), PieceColor::Red);
}

#[test]
fn position_algebra() {
    let p = Position::new(3, 4);
    assert_eq!(p.rank(), 3);
    assert_eq!(p.file(), 4);
    assert_eq!(p.rank_int(), 3);
    assert_eq!(p.file_int(), 4);
    assert_eq!(p.plus(Position::new_int(1, -1)), Position::new(4, 3));
    assert_eq!(p.minus(Position::new_int(1, 1)), Position::new(2, 3));
    assert_eq!(Position::new_int(1, -1).scaled(2), Position::new_int(2, -2));
    assert_eq!(Position::new_int(1, -1).negated(), Position::new_int(-1, 1));
    assert_eq!(p.legal(), Some(p));
    assert_eq!(Position::new_int(-1, 0).legal(), None);
    assert_eq!(Position::new(10, 0).legal(), None);
    assert_eq!(Position::new(9, 9).legal(), None);
    assert_eq!(Position::new(9, 8).legal(), Some(Position::new(9, 8)));
}

#[test]
fn direction_vectors() {
    assert_eq!(MoveDir::Left.offset(), Position::new_int(0, -1));
    assert_eq!(MoveDir::Right.offset(), Position::new_int(0, 1));
    assert_eq!(MoveDir::Up.offset(), Position::new_int(-1, 0));
    assert_eq!(MoveDir::Down.offset(), Position::new_int(1, 0));
    assert_eq!(DiagDir::LU.offset(), Position::new_int(-1, -1));
    assert_eq!(DiagDir::RD.offset(), Position::new_int(1, 1));
    assert_eq!(MoveDir::Left.corresponding(), [DiagDir::LU, DiagDir::LD]);
    assert_eq!(MoveDir::Up.corresponding(), [DiagDir::LU, DiagDir::RU]);
    assert_eq!(MoveDir::Down.corresponding(), [DiagDir::LD, DiagDir::RD]);
}

#[test]
fn force_moves_piece_and_tracks_king() {
    let mut b = Board::new();
    let from = Position::new(0, 4);
    let to = Position::new(1, 4);
    b.force(from, to);
    assert!(b.get(from).is_empty());
    assert!(b.get(to).is_kind(PieceKind::King));
    assert_eq!(b.king(PieceColor::Red), to);
    assert_eq!(b.king(PieceColor::Black), Position::new(9, 4));
    b.next_turn();
    assert_eq!(b.turn(), PieceColor::Black);
    b.next_turn();
    assert_eq!(b.turn(), PieceColor::Red);
}

#[test]
fn rook_open_board_reach() {
    let b = board_from(&[(4, 4, "rr")], "0494", 'r');
    let reach = b.reachable(Position::new(4, 4));
    assert_eq!(reach.len(), 17);
    for r in 0..10 {
        if r != 4 {
            assert!(reach.contains(&Position::new(r, 4)), "missing rank {}", r);
        }
    }
    for f in 0..9 {
        if f != 4 {
            assert!(reach.contains(&Position::new(4, f)), "missing file {}", f);
        }
    }
    assert!(!reach.contains(&Position::new(4, 4)));
    assert!(!reach.contains(&Position::new(5, 5)));
}

#[test]
fn rook_stops_at_first_piece() {
    let b = board_from(&[(4, 4, "rr"), (4, 6, "pb"), (4, 2, "pr")], "0494", 'r');
    let reach = b.reachable(Position::new(4, 4));
    assert!(reach.contains(&Position::new(4, 5)));
    assert!(reach.contains(&Position::new(4, 6))); // captures the enemy
    assert!(!reach.contains(&Position::new(4, 7))); // not past it
    assert!(reach.contains(&Position::new(4, 3)));
    assert!(!reach.contains(&Position::new(4, 2))); // own piece blocks
}

#[test]
fn cannon_screen_capture() {
    // Cannon at (4,4), screen at (4,5), enemy at (4,6), squares beyond.
    let b = board_from(&[(4, 4, "cr"), (4, 5, "pr"), (4, 6, "pb"), (4, 8, "pb")], "0494", 'r');
    let reach = b.reachable(Position::new(4, 4));
    assert!(reach.contains(&Position::new(4, 6))); // capture over the screen
    assert!(!reach.contains(&Position::new(4, 5))); // cannot land on the screen
    assert!(!reach.contains(&Position::new(4, 7))); // nothing beyond the capture
    assert!(!reach.contains(&Position::new(4, 8)));
    // Non-capturing slides over empty squares on the other directions.
    assert!(reach.contains(&Position::new(4, 3)));
    assert!(reach.contains(&Position::new(4, 0)));
    assert!(reach.contains(&Position::new(0, 4)));
    assert!(reach.contains(&Position::new(9, 4)));
}

#[test]
fn cannon_needs_exactly_one_screen() {
    // Two screens between cannon and the enemy: no capture.
    let b = board_from(&[(4, 0, "cr"), (4, 2, "pr"), (4, 4, "pr"), (4, 6, "pb")], "0494", 'r');
    let reach = b.reachable(Position::new(4, 0));
    assert!(!reach.contains(&Position::new(4, 6)));
    assert!(reach.contains(&Position::new(4, 1)));
    assert!(!reach.contains(&Position::new(4, 3)));
}

#[test]
fn flying_general_reach() {
    // Red king at (0,4) faces the black king at (8,4) on a clear file.
    let b = board_from(&[(0, 4, "kr"), (8, 4, "kb")], "0484", 'r');
    let reach = b.reachable(Position::new(0, 4));
    assert!(reach.contains(&Position::new(8, 4))); // flying-general capture
    assert!(reach.contains(&Position::new(1, 4)));
    assert!(reach.contains(&Position::new(0, 3)));
    assert!(reach.contains(&Position::new(0, 5)));
    // A screen on the file takes the flying capture away.
    let b2 = board_from(&[(0, 4, "kr"), (5, 4, "pr"), (8, 4, "kb")], "0484", 'r');
    let reach2 = b2.reachable(Position::new(0, 4));
    assert!(!reach2.contains(&Position::new(8, 4)));
}

#[test]
fn king_confined_to_palace() {
    let b = board_from(&[(1, 3, "kr"), (9, 4, "kb")], "1394", 'r');
    let reach = b.reachable(Position::new(1, 3));
    assert!(reach.contains(&Position::new(0, 3)));
    assert!(reach.contains(&Position::new(2, 3)));
    assert!(reach.contains(&Position::new(1, 4)));
    assert!(!reach.contains(&Position::new(1, 2))); // file 2 leaves the palace
}

#[test]
fn advisor_diagonal_in_palace() {
    let b = board_from(&[(0, 3, "ar"), (9, 4, "kb"), (0, 4, "kr")], "0494", 'r');
    let reach = b.reachable(Position::new(0, 3));
    assert_eq!(reach.len(), 1);
    assert!(reach.contains(&Position::new(1, 4)));
}

#[test]
fn bishop_blocked_at_eye() {
    let b = board_from(&[(4, 4, "br")], "0494", 'r');
    let reach = b.reachable(Position::new(4, 4));
    assert_eq!(reach.len(), 4);
    assert!(reach.contains(&Position::new(2, 2)));
    assert!(reach.contains(&Position::new(2, 6)));
    assert!(reach.contains(&Position::new(6, 2)));
    assert!(reach.contains(&Position::new(6, 6)));
    let blocked = board_from(&[(4, 4, "br"), (5, 5, "pb")], "0494", 'r');
    let reach2 = blocked.reachable(Position::new(4, 4));
    assert!(!reach2.contains(&Position::new(6, 6)));
    assert!(reach2.contains(&Position::new(2, 2)));
}

#[test]
fn knight_blocked_at_leg() {
    let b = board_from(&[(4, 4, "nr")], "0494", 'r');
    let reach = b.reachable(Position::new(4, 4));
    assert_eq!(reach.len(), 8);
    assert!(reach.contains(&Position::new(2, 3)));
    assert!(reach.contains(&Position::new(6, 5)));
    assert!(reach.contains(&Position::new(3, 2)));
    let blocked = board_from(&[(4, 4, "nr"), (3, 4, "pb")], "0494", 'r');
    let reach2 = blocked.reachable(Position::new(4, 4));
    assert!(!reach2.contains(&Position::new(2, 3)));
    assert!(!reach2.contains(&Position::new(2, 5)));
    assert!(reach2.contains(&Position::new(6, 3)));
}

#[test]
fn pawn_forward_then_sideways_after_river() {
    let b = Board::new();
    // A red pawn on its starting rank only advances.
    let reach = b.reachable(Position::new(3, 0));
    assert_eq!(reach.len(), 1);
    assert!(reach.contains(&Position::new(4, 0)));
    // A red pawn across the river also steps sideways, never backward.
    let crossed = board_from(&[(5, 4, "pr"), (0, 4, "kr"), (9, 4, "kb")], "0494", 'r');
    let reach2 = crossed.reachable(Position::new(5, 4));
    assert_eq!(reach2.len(), 3);
    assert!(reach2.contains(&Position::new(6, 4)));
    assert!(reach2.contains(&Position::new(5, 3)));
    assert!(reach2.contains(&Position::new(5, 5)));
    // A black pawn advances toward rank 0.
    let black = board_from(&[(6, 0, "pb"), (0, 4, "kr"), (9, 4, "kb")], "0494", 'b');
    let reach3 = black.reachable(Position::new(6, 0));
    assert_eq!(reach3.len(), 1);
    assert!(reach3.contains(&Position::new(5, 0)));
}

#[test]
fn check_detection() {
    // Black rook on the red king's file, clear between: red to move is in check.
    let b = board_from(&[(0, 4, "kr"), (9, 4, "kb"), (5, 4, "rb")], "0494", 'r');
    assert!(b.is_check());
    // A red piece standing between blocks the check.
    let b2 = board_from(&[(0, 4, "kr"), (9, 4, "kb"), (5, 4, "rb"), (3, 4, "pr")], "0494", 'r');
    assert!(!b2.is_check());
    // The opening position is not check.
    assert!(!Board::new().is_check());
}
