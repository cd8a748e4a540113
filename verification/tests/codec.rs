use jigsaw::actions::{parse_action, parse_message_id, Action};
use jigsaw::commands::{parse_command, Command};
use jigsaw::digest::fnv_hash;
use jigsaw::error::{Error, SyntaxError};
use jigsaw::numbers::parse_uint;
use jigsaw::session::ack_reply;
use jigsaw::snapshot::{decode_puzzle_snapshot, encode_poll_snapshot, encode_puzzle_snapshot};

fn parse(line: &[u8]) -> Result<Command, Error> {
    parse_command(&line.to_vec())
}

fn parse_err(line: &[u8]) -> Error {
    match parse(line) {
        Err(e) => e,
        Ok(_) => panic!("parsing {:?} should fail", String::from_utf8_lossy(line)),
    }
}

#[test]
fn new_command_parses_fields() {
    match parse(b"new 5 4 http://x/y;z 123").unwrap() {
        Command::New(req) => {
            assert_eq!(req.width, 5);
            assert_eq!(req.height, 4);
            // Semicolons in the URL become spaces.
            assert_eq!(req.url, b"http://x/y z".to_vec());
            assert_eq!(req.seed, 123);
        },
        _ => panic!("expected a new command"),
    }
}

#[test]
fn new_command_ignores_extra_tokens_and_trims() {
    match parse(b"  new 3 3 url 7 trailing junk \r\n").unwrap() {
        Command::New(req) => {
            assert_eq!(req.width, 3);
            assert_eq!(req.seed, 7);
        },
        _ => panic!("expected a new command"),
    }
}

#[test]
fn new_command_syntax_errors() {
    assert_eq!(parse_err(b"new x 3 u 0"), Error::BadSyntax(SyntaxError::WidthNotInteger));
    assert_eq!(parse_err(b"new 300 3 u 0"), Error::BadSyntax(SyntaxError::WidthNotInteger));
    assert_eq!(parse_err(b"new 3"), Error::BadSyntax(SyntaxError::NoHeight));
    assert_eq!(parse_err(b"new 3 y u 0"), Error::BadSyntax(SyntaxError::HeightNotInteger));
    assert_eq!(parse_err(b"new 2 5 u 0"), Error::BadSyntax(SyntaxError::DimensionsTooSmall));
    assert_eq!(parse_err(b"new 40 40 u 0"), Error::TooManyPieces);
    assert_eq!(parse_err(b"new 3 3"), Error::BadSyntax(SyntaxError::NoURL));
    assert_eq!(parse_err(b"new 3 3 u"), Error::BadSyntax(SyntaxError::NoSeed));
    assert_eq!(parse_err(b"new 3 3 u x"), Error::BadSyntax(SyntaxError::SeedNotInteger));
    assert_eq!(parse_err(b"new 3 3 u 4294967296"), Error::BadSyntax(SyntaxError::SeedNotInteger));

    let mut long = b"new 3 3 ".to_vec();
    long.extend(std::iter::repeat(b'a').take(2049));
    long.extend_from_slice(b" 0");
    assert_eq!(parse_command(&long).unwrap_err(), Error::ImageURLTooLong);
    assert_eq!(Error::ImageURLTooLong.message(), "image URL too long");
}

#[test]
fn join_needs_a_seven_byte_id() {
    assert_eq!(parse_err(b"join abc"), Error::BadSyntax(SyntaxError::BadJoinID));
    assert_eq!(parse_err(b"rejoin abcdefgh"), Error::BadSyntax(SyntaxError::BadJoinID));
    match parse(b"join abcdefg").unwrap() {
        Command::Join(id) => assert_eq!(id, b"abcdefg".to_vec()),
        _ => panic!("expected a join"),
    }
}

#[test]
fn exact_words_dispatch() {
    assert!(matches!(parse(b"poll").unwrap(), Command::Poll));
    assert!(matches!(parse(b" poll ").unwrap(), Command::Poll));
    assert!(matches!(parse(b"randomFeaturedWikimedia").unwrap(), Command::RandomFeatured));
    assert!(matches!(parse(b"wikimediaPotd").unwrap(), Command::Potd));
    assert!(matches!(parse(b"polls").unwrap(), Command::Ignored));
    assert!(matches!(parse(b"").unwrap(), Command::Ignored));
    assert!(matches!(parse(b"new").unwrap(), Command::Ignored));
}

#[test]
fn binary_actions_parse_in_order() {
    let mut frame = Vec::new();
    for w in [5u32, 3, 2, 0x3f000000, 0x3f800000, 4, 1, 7] {
        frame.extend_from_slice(&w.to_le_bytes());
    }
    assert_eq!(parse_message_id(&frame).unwrap(), 5);
    let (a1, p1) = parse_action(&frame, 4).unwrap().unwrap();
    assert_eq!(a1, Action::Move { piece: 2, x: 0x3f000000, y: 0x3f800000 });
    let (a2, p2) = parse_action(&frame, p1).unwrap().unwrap();
    assert_eq!(a2, Action::Connect { a: 1, b: 7 });
    assert!(parse_action(&frame, p2).unwrap().is_none());
}

#[test]
fn binary_action_errors() {
    let frame: Vec<u8> = [9u32, 6].iter().flat_map(|w| w.to_le_bytes()).collect();
    assert_eq!(parse_action(&frame, 4).unwrap_err(), Error::BadSyntax(SyntaxError::BadAction));

    let truncated: Vec<u8> = [9u32, 3, 0].iter().flat_map(|w| w.to_le_bytes()).collect();
    assert_eq!(
        parse_action(&truncated, 4).unwrap_err(),
        Error::BadSyntax(SyntaxError::UnexpectedEOF)
    );

    let empty: Vec<u8> = Vec::new();
    assert_eq!(parse_message_id(&empty).unwrap_err(), Error::BadSyntax(SyntaxError::UnexpectedEOF));

    // A coordinate just past 2.0 is out of range; 2.0 itself is fine.
    let past: Vec<u8> =
        [9u32, 3, 0, 0x40000001, 0].iter().flat_map(|w| w.to_le_bytes()).collect();
    assert_eq!(
        parse_action(&past, 4).unwrap_err(),
        Error::BadSyntax(SyntaxError::PositionOutOfBounds)
    );
    let exact: Vec<u8> =
        [9u32, 3, 0, 0x40000000, 0x80000000].iter().flat_map(|w| w.to_le_bytes()).collect();
    assert!(parse_action(&exact, 4).is_ok());
}

#[test]
fn snapshot_layout_is_exact() {
    let url = b"u".to_vec();
    let positions = vec![0x3f000000u32, 0, 0, 0];
    let connectivity = vec![1u16, 1];
    let frame = encode_puzzle_snapshot(2, 1, &url, 0xAABBCCDD, &positions, &connectivity);
    // Header: opcode + padding, seed, dimensions.
    assert_eq!(&frame[..4], &[1, 0, 0, 0]);
    assert_eq!(&frame[4..8], &[0xDD, 0xCC, 0xBB, 0xAA]);
    assert_eq!(frame[8], 2);
    assert_eq!(frame[9], 1);
    // URL, NUL, then zero padding to a multiple of 8.
    assert_eq!(frame[10], b'u');
    assert_eq!(&frame[11..16], &[0, 0, 0, 0, 0]);
    // Arrays.
    assert_eq!(&frame[16..20], &[0, 0, 0, 0x3f]);
    assert_eq!(frame.len(), 16 + 16 + 4);
    assert_eq!(&frame[32..], &[1, 0, 1, 0]);

    let decoded = decode_puzzle_snapshot(&frame).unwrap();
    assert_eq!(decoded.width, 2);
    assert_eq!(decoded.height, 1);
    assert_eq!(decoded.url, url);
    assert_eq!(decoded.seed, 0xAABBCCDD);
    assert_eq!(decoded.positions, positions);
    assert_eq!(decoded.connectivity, connectivity);
}

#[test]
fn poll_snapshot_layout_is_exact() {
    let frame = encode_poll_snapshot(&vec![7u32], &vec![3u16]);
    assert_eq!(frame, vec![2, 0, 0, 0, 0, 0, 0, 0, 7, 0, 0, 0, 3, 0]);
}

#[test]
fn corrupt_snapshots_do_not_decode() {
    let url = b"u".to_vec();
    let frame = encode_puzzle_snapshot(2, 1, &url, 1, &vec![0u32; 4], &vec![0u16; 2]);
    let mut wrong_opcode = frame.clone();
    wrong_opcode[0] = 9;
    assert!(decode_puzzle_snapshot(&wrong_opcode).is_none());
    let mut truncated = frame.clone();
    truncated.pop();
    assert!(decode_puzzle_snapshot(&truncated).is_none());
    let mut no_nul = frame.clone();
    no_nul.truncate(10);
    assert!(decode_puzzle_snapshot(&no_nul).is_none());
}

#[test]
fn ack_formats_decimals() {
    assert_eq!(ack_reply(0), b"ack 0".to_vec());
    assert_eq!(ack_reply(7), b"ack 7".to_vec());
    assert_eq!(ack_reply(4294967295), b"ack 4294967295".to_vec());
}

#[test]
fn uint_parsing_matches_str_parse() {
    for (token, max, expected) in [
        (&b"0"[..], u32::MAX, Some(0u32)),
        (b"42", u32::MAX, Some(42)),
        (b"+42", u32::MAX, Some(42)),
        (b"4294967295", u32::MAX, Some(4294967295)),
        (b"4294967296", u32::MAX, None),
        (b"256", 255, None),
        (b"", u32::MAX, None),
        (b"+", u32::MAX, None),
        (b"1x", u32::MAX, None),
        (b"-1", u32::MAX, None),
        (b"007", 255, Some(7)),
    ] {
        assert_eq!(parse_uint(&token.to_vec(), max), expected, "token {:?}", token);
    }
}

#[test]
fn digest_separates_different_states() {
    let a = fnv_hash(&b"abc".to_vec());
    let b = fnv_hash(&b"abd".to_vec());
    assert_ne!(a, b);
    assert_eq!(a, fnv_hash(&b"abc".to_vec()));
    // The FNV-1a offset basis is the hash of the empty input.
    assert_eq!(fnv_hash(&Vec::new()), 0xcbf29ce484222325);
}
