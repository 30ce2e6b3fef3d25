use xiangqi::relay::{connect, connect_random, disconnect, play, query, sweep, RoomTable, EXPIRE_MS};

#[test]
fn connect_assigns_distinct_colors_then_conflicts() {
    let mut table = RoomTable::new();
    let r1 = connect(&mut table, 7, true, 0);
    let r2 = connect(&mut table, 7, false, 1);
    let r3 = connect(&mut table, 7, true, 2);
    assert!(r1.ok);
    assert!(r2.ok);
    assert_ne!(r1.player, r2.player);
    assert!(!r3.ok);
    assert!(!r3.player);
}

#[test]
fn connect_first_player_gets_coin_negation() {
    let mut table = RoomTable::new();
    let r1 = connect(&mut table, 1, true, 0);
    assert!(r1.ok);
    assert!(!r1.player);
    let r2 = connect(&mut table, 1, false, 0);
    assert!(r2.ok);
    assert!(r2.player);
    let mut other = RoomTable::new();
    let r3 = connect(&mut other, 1, false, 0);
    assert!(r3.ok);
    assert!(r3.player);
}

#[test]
fn connect_random_pairs_distinct_colors() {
    let mut table = RoomTable::new();
    let r1 = connect_random(&mut table, 42, 0);
    let r2 = connect_random(&mut table, 42, 1);
    let r3 = connect_random(&mut table, 42, 2);
    assert!(r1.ok);
    assert!(r2.ok);
    assert_ne!(r1.player, r2.player);
    assert!(!r3.ok);
}

#[test]
fn play_and_query_fifo() {
    let mut table = RoomTable::new();
    connect(&mut table, 9, true, 0);
    connect(&mut table, 9, false, 0);
    // Three plays by the `true` side land in the `false` side's mailbox.
    assert!(play(&mut table, 9, true, "first".to_string(), 1));
    assert!(play(&mut table, 9, true, "second".to_string(), 2));
    assert!(play(&mut table, 9, true, "third".to_string(), 3));
    // The sender's own mailbox stays empty.
    assert_eq!(query(&mut table, 9, true, 4), None);
    // The opponent drains them in submission order.
    assert_eq!(query(&mut table, 9, false, 5), Some("first".to_string()));
    assert_eq!(query(&mut table, 9, false, 6), Some("second".to_string()));
    assert_eq!(query(&mut table, 9, false, 7), Some("third".to_string()));
    assert_eq!(query(&mut table, 9, false, 8), None);
}

#[test]
fn play_missing_room_rejected() {
    let mut table = RoomTable::new();
    assert!(!play(&mut table, 5, true, "board".to_string(), 0));
    assert_eq!(query(&mut table, 5, true, 0), None);
}

#[test]
fn disconnect_removes_room() {
    let mut table = RoomTable::new();
    connect(&mut table, 3, true, 0);
    assert!(play(&mut table, 3, true, "b".to_string(), 0));
    disconnect(&mut table, 3);
    assert!(!play(&mut table, 3, true, "b".to_string(), 0));
    assert_eq!(query(&mut table, 3, false, 0), None);
    // Removing a missing room is harmless.
    disconnect(&mut table, 3);
}

#[test]
fn sweep_removes_only_expired_rooms() {
    let mut table = RoomTable::new();
    connect(&mut table, 1, true, 0);
    assert!(play(&mut table, 1, true, "old".to_string(), 0));
    connect(&mut table, 2, true, EXPIRE_MS);
    assert!(play(&mut table, 2, true, "new".to_string(), EXPIRE_MS));
    // Room 1 was last touched at 0 and has expired; room 2 is inside the
    // window (the boundary itself does not expire).
    sweep(&mut table, EXPIRE_MS + 1);
    assert!(!play(&mut table, 1, true, "late".to_string(), EXPIRE_MS + 2));
    assert_eq!(query(&mut table, 2, false, EXPIRE_MS + 2), Some("new".to_string()));
}

#[test]
fn activity_within_window_survives_sweep() {
    let mut table = RoomTable::new();
    connect(&mut table, 4, true, 0);
    assert!(play(&mut table, 4, true, "kept".to_string(), 0));
    // A query refreshes the last-activity time even when the mailbox read
    // comes up empty.
    assert_eq!(query(&mut table, 4, true, EXPIRE_MS), None);
    sweep(&mut table, EXPIRE_MS + EXPIRE_MS);
    assert_eq!(query(&mut table, 4, false, EXPIRE_MS + EXPIRE_MS), Some("kept".to_string()));
}
