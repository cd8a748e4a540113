use jigsaw::error::Error;
use jigsaw::ids::{generate_puzzle_id, id_key};
use jigsaw::presence::Presence;
use jigsaw::puzzle::{initial_connectivity, initial_positions};
use jigsaw::table::{PuzzleTable, WEEK_SECONDS};
use jigsaw::tasks::{next_day_start, potd_sleep_seconds, DAY_SECONDS};

fn populated_table(key: u64, now: u64) -> PuzzleTable {
    let mut t = PuzzleTable::new();
    assert!(t.allocate(key, now));
    t.populate(
        key,
        3,
        3,
        b"url".to_vec(),
        initial_positions(3, 3),
        initial_connectivity(3, 3),
        0,
    );
    t
}

#[test]
fn allocate_reports_collisions() {
    let mut t = PuzzleTable::new();
    assert!(t.allocate(17, 0));
    assert!(!t.allocate(17, 5));
    assert!(t.allocate(18, 0));
}

#[test]
fn reads_of_missing_rows_fail() {
    let mut t = PuzzleTable::new();
    assert_eq!(t.get_piece_info(1).unwrap_err(), Error::BadPuzzleID);
    assert_eq!(Error::BadPuzzleID.message(), "bad puzzle ID");
    // An allocated but unpopulated row reads the same way.
    assert!(t.allocate(1, 0));
    assert_eq!(t.get_puzzle_info(1).unwrap_err(), Error::BadPuzzleID);
}

#[test]
fn moves_respect_the_guards() {
    let mut t = populated_table(5, 0);
    // In range: piece 4 of a 3x3 board.
    t.move_piece(5, 4, 0x3f000000, 0x3f800000).unwrap();
    let pi = t.get_piece_info(5).unwrap();
    assert_eq!(pi.positions[8], 0x3f000000);
    assert_eq!(pi.positions[9], 0x3f800000);
    // Out of board range but under the protocol cap: a quiet no-op.
    t.move_piece(5, 9, 0x3f000000, 0x3f000000).unwrap();
    let pi = t.get_piece_info(5).unwrap();
    assert_eq!(pi.positions.iter().filter(|&&p| p != 0).count(), 2);
    // Beyond the protocol cap: rejected.
    assert_eq!(t.move_piece(5, 1001, 0, 0).unwrap_err(), Error::BadPieceID);
    assert_eq!(Error::BadPieceID.message(), "bad piece ID");
    // The cap itself is still accepted by the protocol layer.
    t.move_piece(5, 1000, 0, 0).unwrap();
}

#[test]
fn connect_merges_whole_label_classes() {
    let mut t = populated_table(5, 0);
    t.connect_pieces(5, 0, 1);
    t.connect_pieces(5, 1, 2);
    let pi = t.get_piece_info(5).unwrap();
    assert_eq!(pi.connectivity[0], pi.connectivity[1]);
    assert_eq!(pi.connectivity[1], pi.connectivity[2]);
    assert_eq!(pi.connectivity[0], 2);
    // Out-of-range pieces leave the labels alone.
    t.connect_pieces(5, 9, 0);
    t.connect_pieces(5, 0, 9);
    assert_eq!(t.get_piece_info(5).unwrap().connectivity, pi.connectivity);
}

#[test]
fn connect_twice_is_idempotent() {
    let mut a = populated_table(5, 0);
    let mut b = populated_table(5, 0);
    a.connect_pieces(5, 3, 7);
    b.connect_pieces(5, 3, 7);
    b.connect_pieces(5, 3, 7);
    assert_eq!(
        a.get_piece_info(5).unwrap().connectivity,
        b.get_piece_info(5).unwrap().connectivity
    );
}

#[test]
fn sweep_removes_only_week_old_rows() {
    let mut t = PuzzleTable::new();
    assert!(t.allocate(1, 0));
    assert!(t.allocate(2, 10));
    t.sweep(WEEK_SECONDS);
    // Row 1 is exactly a week old and goes; row 2 is younger and stays.
    assert!(t.allocate(1, WEEK_SECONDS));
    assert!(!t.allocate(2, WEEK_SECONDS));
    t.sweep(WEEK_SECONDS + 10);
    assert!(!t.allocate(1, 0));
    assert!(t.allocate(2, 0));
}

#[test]
fn presence_counts_up_to_the_cap() {
    let mut p = Presence::new();
    for expected in 1..=20u32 {
        p.try_increment(9).unwrap();
        assert_eq!(p.count(9), expected);
    }
    assert_eq!(p.try_increment(9).unwrap_err(), Error::TooManyPlayers);
    assert_eq!(p.count(9), 20);
}

#[test]
fn presence_decrement_removes_at_zero() {
    let mut p = Presence::new();
    p.set_one(4);
    p.try_increment(4).unwrap();
    p.decrement(4).unwrap();
    assert_eq!(p.count(4), 1);
    p.decrement(4).unwrap();
    assert_eq!(p.count(4), 0);
    assert_eq!(p.decrement(4).unwrap_err(), Error::BadPuzzleID);
    // Other puzzles are untouched throughout.
    assert_eq!(p.count(5), 0);
}

#[test]
fn generated_ids_use_the_unambiguous_alphabet() {
    let alphabet = b"23456789abcdefghijkmnopqrstuvwxyzABCDEFGHJKLMNPQRSTUVWXYZ";
    for _ in 0..50 {
        let id = generate_puzzle_id();
        assert_eq!(id.len(), 7);
        for b in &id {
            assert!(alphabet.contains(b), "{} is outside the alphabet", *b as char);
        }
    }
}

#[test]
fn id_keys_follow_the_bytes() {
    assert_eq!(id_key(&vec![1, 0, 0, 0, 0, 0, 0]), 1);
    assert_eq!(id_key(&vec![0, 1, 0, 0, 0, 0, 0]), 256);
    assert_ne!(id_key(&b"abcdefg".to_vec()), id_key(&b"abcdefh".to_vec()));
}

#[test]
fn daily_schedule_rounds_up_to_midnight() {
    assert_eq!(next_day_start(0), 0);
    assert_eq!(next_day_start(1), DAY_SECONDS);
    assert_eq!(next_day_start(DAY_SECONDS), DAY_SECONDS);
    assert_eq!(next_day_start(DAY_SECONDS + 1), 2 * DAY_SECONDS);
    assert_eq!(potd_sleep_seconds(DAY_SECONDS), 60);
    assert_eq!(potd_sleep_seconds(DAY_SECONDS - 30), 90);
}

#[test]
fn initial_arrays_have_the_mandated_shape() {
    let pos = initial_positions(10, 10);
    assert_eq!(pos.len(), 200);
    assert!(pos.iter().all(|&p| p == 0));
    let conn = initial_connectivity(10, 10);
    assert_eq!(conn, (0u16..100).collect::<Vec<u16>>());
}
