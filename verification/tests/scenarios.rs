use jigsaw::error::{Error, SyntaxError};
use jigsaw::server::{Reply, ServerCore};
use jigsaw::session::Session;
use jigsaw::snapshot::decode_puzzle_snapshot;

fn new_server() -> ServerCore {
    let featured = vec![b"https://example.org/a.jpg".to_vec()];
    ServerCore::new(featured, b"https://example.org/potd.jpg".to_vec())
}

fn text_reply(r: Result<Option<Reply>, Error>) -> Vec<u8> {
    match r {
        Ok(Some(Reply::Text(f))) => f,
        other => panic!("expected a text reply, got {:?}", other.map(|_| "frame")),
    }
}

fn binary_reply(r: Result<Option<Reply>, Error>) -> Vec<u8> {
    match r {
        Ok(Some(Reply::Binary(f))) => f,
        other => panic!("expected a binary reply, got {:?}", other.map(|_| "frame")),
    }
}

fn create(core: &mut ServerCore, sess: &mut Session, line: &[u8]) -> Vec<u8> {
    let reply = text_reply(core.handle_text(sess, &line.to_vec(), 1000));
    assert_eq!(&reply[..4], b"id: ");
    let id = reply[4..].to_vec();
    assert_eq!(id.len(), 7);
    id
}

fn le_u32(words: &[u32]) -> Vec<u8> {
    let mut out = Vec::new();
    for w in words {
        out.extend_from_slice(&w.to_le_bytes());
    }
    out
}

#[test]
fn new_then_poll_returns_fresh_board() {
    let mut core = new_server();
    let mut sess = Session::new();
    create(&mut core, &mut sess, b"new 3 3 http://ex/img 42");
    let frame = binary_reply(core.handle_text(&mut sess, &b"poll".to_vec(), 1000));
    // opcode 2, 7 bytes padding, 18 zero positions, connectivity 0..9.
    let mut expected = vec![2u8, 0, 0, 0, 0, 0, 0, 0];
    expected.extend_from_slice(&[0u8; 72]);
    for i in 0u16..9 {
        expected.extend_from_slice(&i.to_le_bytes());
    }
    assert_eq!(frame, expected);
}

#[test]
fn join_snapshot_round_trips_the_row() {
    let mut core = new_server();
    let mut creator = Session::new();
    let id = create(&mut core, &mut creator, b"new 3 3 url 1");

    let mut joiner = Session::new();
    let mut line = b"join ".to_vec();
    line.extend_from_slice(&id);
    let frame = binary_reply(core.handle_text(&mut joiner, &line, 1000));
    assert_eq!(frame[0], 1);
    let decoded = decode_puzzle_snapshot(&frame).expect("snapshot must parse");
    assert_eq!(decoded.seed, 1);
    assert_eq!(decoded.width, 3);
    assert_eq!(decoded.height, 3);
    assert_eq!(decoded.url, b"url".to_vec());
    assert_eq!(decoded.positions, vec![0u32; 18]);
    assert_eq!(decoded.connectivity, (0u16..9).collect::<Vec<u16>>());
}

#[test]
fn move_batch_acks_and_poll_shows_the_move() {
    let mut core = new_server();
    let mut sess = Session::new();
    create(&mut core, &mut sess, b"new 4 3 url 0");
    // Swallow the initial poll snapshot so only the move shows later.
    binary_reply(core.handle_text(&mut sess, &b"poll".to_vec(), 1000));

    let batch = le_u32(&[7, 3, 5, 0.25f32.to_bits(), 0.75f32.to_bits()]);
    let ack = match core.handle_binary(&mut sess, &batch) {
        Ok(Reply::Text(f)) => f,
        other => panic!("expected ack, got {:?}", other.map(|_| "frame")),
    };
    assert_eq!(ack, b"ack 7".to_vec());

    let frame = binary_reply(core.handle_text(&mut sess, &b"poll".to_vec(), 1000));
    let pos_bytes = &frame[8..8 + 4 * 24];
    let tenth = u32::from_le_bytes(pos_bytes[40..44].try_into().unwrap());
    let eleventh = u32::from_le_bytes(pos_bytes[44..48].try_into().unwrap());
    assert_eq!(f32::from_bits(tenth), 0.25);
    assert_eq!(f32::from_bits(eleventh), 0.75);
}

#[test]
fn connect_chains_merge_groups() {
    let mut core = new_server();
    let mut sess = Session::new();
    create(&mut core, &mut sess, b"new 3 3 url 0");

    let batch = le_u32(&[1, 4, 0, 1, 4, 1, 2]);
    match core.handle_binary(&mut sess, &batch) {
        Ok(Reply::Text(f)) => assert_eq!(f, b"ack 1".to_vec()),
        other => panic!("expected ack, got {:?}", other.map(|_| "frame")),
    }

    let frame = binary_reply(core.handle_text(&mut sess, &b"poll".to_vec(), 1000));
    let conn_bytes = &frame[8 + 72..];
    let labels: Vec<u16> = conn_bytes
        .chunks(2)
        .map(|c| u16::from_le_bytes(c.try_into().unwrap()))
        .collect();
    assert_eq!(labels.len(), 9);
    assert_eq!(labels[0], labels[1]);
    assert_eq!(labels[1], labels[2]);
    assert_eq!(labels[3], 3);
}

#[test]
fn twenty_first_join_is_rejected() {
    let mut core = new_server();
    let mut creator = Session::new();
    let id = create(&mut core, &mut creator, b"new 3 3 url 0");
    let mut line = b"join ".to_vec();
    line.extend_from_slice(&id);

    // The creator already holds one seat; 19 more joins fill the table.
    for _ in 0..19 {
        let mut s = Session::new();
        binary_reply(core.handle_text(&mut s, &line, 1000));
    }
    let mut unlucky = Session::new();
    match core.handle_text(&mut unlucky, &line, 1000) {
        Err(e) => {
            assert_eq!(e, Error::TooManyPlayers);
            assert_eq!(e.message(), "too many players");
        },
        _ => panic!("the 21st join must fail"),
    }
}

#[test]
fn odd_length_binary_frame_fails() {
    let mut core = new_server();
    let mut sess = Session::new();
    create(&mut core, &mut sess, b"new 3 3 url 0");
    let batch = vec![1u8, 0, 0];
    match core.handle_binary(&mut sess, &batch) {
        Err(e) => {
            assert_eq!(e, Error::BadSyntax(SyntaxError::BinaryNotMultipleOf4));
            assert_eq!(e.message(), "binary message not multiple of 4 bytes");
        },
        _ => panic!("an odd frame must fail"),
    }
}

#[test]
fn nan_coordinate_fails() {
    let mut core = new_server();
    let mut sess = Session::new();
    create(&mut core, &mut sess, b"new 3 3 url 0");
    let batch = le_u32(&[1, 3, 0, f32::NAN.to_bits(), 0.0f32.to_bits()]);
    match core.handle_binary(&mut sess, &batch) {
        Err(e) => {
            assert_eq!(e, Error::BadSyntax(SyntaxError::PositionOutOfBounds));
            assert_eq!(e.message(), "piece position out of bounds");
        },
        _ => panic!("a NaN coordinate must fail"),
    }
}

#[test]
fn poll_is_suppressed_until_something_changes() {
    let mut core = new_server();
    let mut sess = Session::new();
    create(&mut core, &mut sess, b"new 3 3 url 0");
    binary_reply(core.handle_text(&mut sess, &b"poll".to_vec(), 1000));
    match core.handle_text(&mut sess, &b"poll".to_vec(), 1000) {
        Ok(None) => (),
        _ => panic!("the second poll must be silent"),
    }
    let batch = le_u32(&[9, 3, 0, 0.5f32.to_bits(), 0.5f32.to_bits()]);
    core.handle_binary(&mut sess, &batch).unwrap();
    binary_reply(core.handle_text(&mut sess, &b"poll".to_vec(), 1000));
}

#[test]
fn rejoin_takes_a_seat_without_a_snapshot() {
    let mut core = new_server();
    let mut creator = Session::new();
    let id = create(&mut core, &mut creator, b"new 3 3 url 0");
    let mut line = b"rejoin ".to_vec();
    line.extend_from_slice(&id);

    let mut resumed = Session::new();
    let reply = text_reply(core.handle_text(&mut resumed, &line, 1000));
    assert_eq!(reply, b"rejoined".to_vec());

    // A session that already joined cannot rejoin.
    match core.handle_text(&mut resumed, &line, 1000) {
        Err(e) => {
            assert_eq!(e, Error::BadSyntax(SyntaxError::UnexpectedRejoin));
            assert_eq!(e.message(), "unexpected rejoin");
        },
        _ => panic!("rejoin after joining must fail"),
    }
}

#[test]
fn mutations_before_join_are_rejected() {
    let mut core = new_server();
    let mut sess = Session::new();
    let batch = le_u32(&[1, 4, 0, 1]);
    match core.handle_binary(&mut sess, &batch) {
        Err(e) => {
            assert_eq!(e, Error::NotJoined);
            assert_eq!(e.message(), "haven't joined a puzzle");
        },
        _ => panic!("a batch before join must fail"),
    }
    match core.handle_text(&mut sess, &b"poll".to_vec(), 1000) {
        Err(e) => assert_eq!(e, Error::NotJoined),
        _ => panic!("poll before join must fail"),
    }
}

#[test]
fn image_commands_reply_with_urls() {
    let mut core = new_server();
    let mut sess = Session::new();
    let reply = text_reply(core.handle_text(&mut sess, &b"wikimediaPotd".to_vec(), 1000));
    assert_eq!(reply, b"useImage https://example.org/potd.jpg".to_vec());
    let reply = text_reply(core.handle_text(&mut sess, &b"randomFeaturedWikimedia".to_vec(), 1000));
    assert_eq!(reply, b"useImage https://example.org/a.jpg".to_vec());
}

#[test]
fn unknown_text_is_ignored() {
    let mut core = new_server();
    let mut sess = Session::new();
    match core.handle_text(&mut sess, &b"hello there".to_vec(), 1000) {
        Ok(None) => (),
        _ => panic!("unknown text must be ignored"),
    }
}

#[test]
fn poll_after_sweep_reports_a_missing_puzzle() {
    let mut core = new_server();
    let mut sess = Session::new();
    create(&mut core, &mut sess, b"new 3 3 url 0");
    binary_reply(core.handle_text(&mut sess, &b"poll".to_vec(), 1000));
    core.table.sweep(1000 + jigsaw::table::WEEK_SECONDS);
    match core.handle_text(&mut sess, &b"poll".to_vec(), 2000) {
        Err(e) => assert_eq!(e, Error::BadPuzzleID),
        _ => panic!("poll on a swept puzzle must fail"),
    }
}

#[test]
fn join_of_an_unknown_id_takes_a_seat_then_fails() {
    let mut core = new_server();
    let mut sess = Session::new();
    match core.handle_text(&mut sess, &b"join zzzzzzz".to_vec(), 1000) {
        Err(e) => assert_eq!(e, Error::BadPuzzleID),
        _ => panic!("join of an unknown id must fail"),
    }
    // The seat was taken before the lookup failed; close releases it.
    let key = jigsaw::ids::id_key(&b"zzzzzzz".to_vec());
    assert_eq!(core.presence.count(key), 1);
    sess.close(&mut core.presence).unwrap();
    assert_eq!(core.presence.count(key), 0);
}

#[test]
fn malformed_new_fails_through_the_handler() {
    let mut core = new_server();
    let mut sess = Session::new();
    match core.handle_text(&mut sess, &b"new 2 2 url 0".to_vec(), 1000) {
        Err(e) => {
            assert_eq!(e, Error::BadSyntax(SyntaxError::DimensionsTooSmall));
            assert_eq!(e.message(), "dimensions too small");
        },
        _ => panic!("undersized dimensions must fail"),
    }
}

#[test]
fn batch_aborts_at_the_first_failure_but_keeps_earlier_effects() {
    let mut core = new_server();
    let mut sess = Session::new();
    create(&mut core, &mut sess, b"new 3 3 url 0");
    // A valid connect, then an unknown action code.
    let batch = le_u32(&[2, 4, 0, 1, 99]);
    match core.handle_binary(&mut sess, &batch) {
        Err(e) => assert_eq!(e, Error::BadSyntax(SyntaxError::BadAction)),
        _ => panic!("the unknown action must abort the batch"),
    }
    // The connect before the failure stays applied.
    let frame = binary_reply(core.handle_text(&mut sess, &b"poll".to_vec(), 1000));
    let conn_bytes = &frame[8 + 72..];
    let first = u16::from_le_bytes(conn_bytes[..2].try_into().unwrap());
    let second = u16::from_le_bytes(conn_bytes[2..4].try_into().unwrap());
    assert_eq!(first, second);
}

#[test]
fn closing_releases_the_seat() {
    let mut core = new_server();
    let mut creator = Session::new();
    let id = create(&mut core, &mut creator, b"new 3 3 url 0");
    let key = jigsaw::ids::id_key(&id);
    assert_eq!(core.presence.count(key), 1);
    creator.close(&mut core.presence).unwrap();
    assert_eq!(core.presence.count(key), 0);
    // A second close of an unjoined session is a quiet no-op.
    creator.close(&mut core.presence).unwrap();
}
