use vstd::prelude::*;

use crate::error::{Error, SyntaxError};
use crate::numbers::{parse_uint, spec_parse_uint, subvec};

verus! {

/// The operands of a `new` command: board dimensions, image URL (with any
/// semicolon already replaced by a space) and the client seed.
#[derive(Debug)]
pub struct NewRequest {
    pub width: u8,
    pub height: u8,
    pub url: Vec<u8>,
    pub seed: u32,
}

/// One parsed text frame.
#[derive(Debug)]
pub enum Command {
    /// `new W H URL SEED`: create a puzzle.
    New(NewRequest),
    /// `join ID`: join a puzzle and request its full snapshot.
    Join(Vec<u8>),
    /// `rejoin ID`: rejoin after a dropped connection, no snapshot resend.
    Rejoin(Vec<u8>),
    /// `poll`: request the mutable state, suppressed when unchanged.
    Poll,
    /// `randomFeaturedWikimedia`: pick an image from the featured list.
    RandomFeatured,
    /// `wikimediaPotd`: the picture of the day.
    Potd,
    /// Any other text frame is ignored.
    Ignored,
}

/// Mathematical image of a [`Command`].
pub enum CommandView {
    New { width: u8, height: u8, url: Seq<u8>, seed: u32 },
    Join { id: Seq<u8> },
    Rejoin { id: Seq<u8> },
    Poll,
    RandomFeatured,
    Potd,
    Ignored,
}

impl View for Command {
    type V = CommandView;

    open spec fn view(&self) -> CommandView {
        match self {
            Command::New(n) => CommandView::New {
                width: n.width,
                height: n.height,
                url: n.url@,
                seed: n.seed,
            },
            Command::Join(id) => CommandView::Join { id: id@ },
            Command::Rejoin(id) => CommandView::Rejoin { id: id@ },
            Command::Poll => CommandView::Poll,
            Command::RandomFeatured => CommandView::RandomFeatured,
            Command::Potd => CommandView::Potd,
            Command::Ignored => CommandView::Ignored,
        }
    }
}

/// ASCII whitespace, as trimmed from the ends of a text frame.
pub open spec fn is_space(b: u8) -> bool {
    b == 0x20 || b == 0x09 || b == 0x0a || b == 0x0d
}

/// First index at or after `i` holding a non-space byte, or the length.
pub open spec fn scan_non_space(s: Seq<u8>, i: int) -> int
    decreases s.len() - i,
{
    if i >= s.len() {
        s.len() as int
    } else if is_space(s[i]) {
        scan_non_space(s, i + 1)
    } else {
        i
    }
}

/// One past the last non-space byte strictly before `i`, or zero.
pub open spec fn scan_non_space_back(s: Seq<u8>, i: int) -> int
    decreases i,
{
    if i <= 0 {
        0
    } else if is_space(s[i - 1]) {
        scan_non_space_back(s, i - 1)
    } else {
        i
    }
}

/// The frame with leading and trailing whitespace removed.
pub open spec fn trimmed(s: Seq<u8>) -> Seq<u8> {
    let front = scan_non_space(s, 0);
    let back = scan_non_space_back(s, s.len() as int);
    if front < back {
        s.subrange(front, back)
    } else {
        Seq::empty()
    }
}

/// End of the token starting at `pos`: the first space at or after `pos`,
/// or the length.  Tokens are what splitting on single spaces yields, so
/// consecutive spaces produce empty tokens.
pub open spec fn token_end(s: Seq<u8>, pos: int) -> int
    decreases s.len() - pos,
{
    if pos >= s.len() {
        s.len() as int
    } else if s[pos] == 0x20 {
        pos
    } else {
        token_end(s, pos + 1)
    }
}

/// `"new "`.
pub open spec fn lit_new() -> Seq<u8> {
    seq![0x6eu8, 0x65u8, 0x77u8, 0x20u8]
}

/// `"join "`.
pub open spec fn lit_join() -> Seq<u8> {
    seq![0x6au8, 0x6fu8, 0x69u8, 0x6eu8, 0x20u8]
}

/// `"rejoin "`.
pub open spec fn lit_rejoin() -> Seq<u8> {
    seq![0x72u8, 0x65u8, 0x6au8, 0x6fu8, 0x69u8, 0x6eu8, 0x20u8]
}

/// `"poll"`.
pub open spec fn lit_poll() -> Seq<u8> {
    seq![0x70u8, 0x6fu8, 0x6cu8, 0x6cu8]
}

/// `"randomFeaturedWikimedia"`.
pub open spec fn lit_random_featured() -> Seq<u8> {
    seq![
        0x72u8, 0x61u8, 0x6eu8, 0x64u8, 0x6fu8, 0x6du8, 0x46u8, 0x65u8, 0x61u8, 0x74u8, 0x75u8,
        0x72u8, 0x65u8, 0x64u8, 0x57u8, 0x69u8, 0x6bu8, 0x69u8, 0x6du8, 0x65u8, 0x64u8, 0x69u8,
        0x61u8,
    ]
}

/// `"wikimediaPotd"`.
pub open spec fn lit_potd() -> Seq<u8> {
    seq![
        0x77u8, 0x69u8, 0x6bu8, 0x69u8, 0x6du8, 0x65u8, 0x64u8, 0x69u8, 0x61u8, 0x50u8, 0x6fu8,
        0x74u8, 0x64u8,
    ]
}

/// `s` starts with `p`.
pub open spec fn has_prefix(s: Seq<u8>, p: Seq<u8>) -> bool {
    s.len() >= p.len() && s.subrange(0, p.len() as int) == p
}

/// The image URL as stored: every semicolon becomes a space.
pub open spec fn url_cleaned(u: Seq<u8>) -> Seq<u8> {
    u.map_values(
        |b: u8|
            if b == 0x3b {
                0x20u8
            } else {
                b
            },
    )
}

/// The bounds every successfully parsed command guarantees: `new` carries
/// dimensions of at least 3 with at most 1000 pieces and a URL that fits;
/// `join` and `rejoin` carry a 7-byte id.
pub open spec fn command_bounds(c: CommandView) -> bool {
    match c {
        CommandView::New { width, height, url, .. } => {
            &&& 3 <= width
            &&& 3 <= height
            &&& width * height <= 1000
            &&& url.len() <= 2048
        },
        CommandView::Join { id } => id.len() == 7,
        CommandView::Rejoin { id } => id.len() == 7,
        _ => true,
    }
}

/// Meaning of the operands of `new`, after the `"new "` prefix: width and
/// height as decimal bytes of at least 3 with at most 1000 pieces, then the
/// URL of at most 2048 bytes, then the seed, extra tokens ignored.
pub open spec fn spec_parse_new(rest: Seq<u8>) -> Result<CommandView, Error> {
    let e0 = token_end(rest, 0);
    let w = spec_parse_uint(rest.subrange(0, e0), 255);
    if w is None {
        Err(Error::BadSyntax(SyntaxError::WidthNotInteger))
    } else if e0 >= rest.len() {
        Err(Error::BadSyntax(SyntaxError::NoHeight))
    } else {
        let e1 = token_end(rest, e0 + 1);
        let h = spec_parse_uint(rest.subrange(e0 + 1, e1), 255);
        if h is None {
            Err(Error::BadSyntax(SyntaxError::HeightNotInteger))
        } else if w->Some_0 < 3 || h->Some_0 < 3 {
            Err(Error::BadSyntax(SyntaxError::DimensionsTooSmall))
        } else if w->Some_0 * h->Some_0 > 1000 {
            Err(Error::TooManyPieces)
        } else if e1 >= rest.len() {
            Err(Error::BadSyntax(SyntaxError::NoURL))
        } else {
            let e2 = token_end(rest, e1 + 1);
            let url = url_cleaned(rest.subrange(e1 + 1, e2));
            if url.len() > 2048 {
                Err(Error::ImageURLTooLong)
            } else if e2 >= rest.len() {
                Err(Error::BadSyntax(SyntaxError::NoSeed))
            } else {
                let e3 = token_end(rest, e2 + 1);
                let seed = spec_parse_uint(rest.subrange(e2 + 1, e3), u32::MAX as int);
                if seed is None {
                    Err(Error::BadSyntax(SyntaxError::SeedNotInteger))
                } else {
                    Ok(
                        CommandView::New {
                            width: w->Some_0 as u8,
                            height: h->Some_0 as u8,
                            url: url,
                            seed: seed->Some_0 as u32,
                        },
                    )
                }
            }
        }
    }
}

/// Meaning of the operand of `join` / `rejoin`: exactly 7 bytes.
pub open spec fn spec_parse_id(rest: Seq<u8>, rejoin: bool) -> Result<CommandView, Error> {
    if rest.len() == 7 {
        if rejoin {
            Ok(CommandView::Rejoin { id: rest })
        } else {
            Ok(CommandView::Join { id: rest })
        }
    } else {
        Err(Error::BadSyntax(SyntaxError::BadJoinID))
    }
}

/// Meaning of one text frame: trim it, then dispatch on the command word.
/// Unknown text is ignored.
pub open spec fn spec_parse_command(line: Seq<u8>) -> Result<CommandView, Error> {
    let t = trimmed(line);
    if has_prefix(t, lit_new()) {
        spec_parse_new(t.skip(4))
    } else if has_prefix(t, lit_join()) {
        spec_parse_id(t.skip(5), false)
    } else if has_prefix(t, lit_rejoin()) {
        spec_parse_id(t.skip(7), true)
    } else if t == lit_poll() {
        Ok(CommandView::Poll)
    } else if t == lit_random_featured() {
        Ok(CommandView::RandomFeatured)
    } else if t == lit_potd() {
        Ok(CommandView::Potd)
    } else {
        Ok(CommandView::Ignored)
    }
}

fn find_non_space(s: &Vec<u8>, from: usize) -> (r: usize)
    requires
        from <= s@.len(),
    ensures
        r == scan_non_space(s@, from as int),
        from <= r <= s@.len(),
{
    let n: usize = s.len();
    let mut i: usize = from;
    while i < n
        invariant
            from <= i <= n,
            n == s@.len(),
            scan_non_space(s@, from as int) == scan_non_space(s@, i as int),
        decreases n - i,
    {
        let b: u8 = s[i];
        if !(b == 0x20 || b == 0x09 || b == 0x0a || b == 0x0d) {
            return i;
        }
        i += 1;
    }
    i
}

fn find_non_space_back(s: &Vec<u8>) -> (r: usize)
    ensures
        r == scan_non_space_back(s@, s@.len() as int),
        r <= s@.len(),
{
    let mut i: usize = s.len();
    while i > 0
        invariant
            i <= s@.len(),
            scan_non_space_back(s@, s@.len() as int) == scan_non_space_back(s@, i as int),
        decreases i,
    {
        let b: u8 = s[i - 1];
        if !(b == 0x20 || b == 0x09 || b == 0x0a || b == 0x0d) {
            return i;
        }
        i -= 1;
    }
    i
}

fn find_token_end(s: &Vec<u8>, pos: usize) -> (r: usize)
    requires
        pos <= s@.len(),
    ensures
        r == token_end(s@, pos as int),
        pos <= r <= s@.len(),
{
    let n: usize = s.len();
    let mut i: usize = pos;
    while i < n
        invariant
            pos <= i <= n,
            n == s@.len(),
            token_end(s@, pos as int) == token_end(s@, i as int),
        decreases n - i,
    {
        if s[i] == 0x20 {
            return i;
        }
        i += 1;
    }
    i
}

fn clean_url(u: &Vec<u8>) -> (r: Vec<u8>)
    ensures
        r@ == url_cleaned(u@),
{
    let n: usize = u.len();
    let mut r: Vec<u8> = Vec::new();
    let mut i: usize = 0;
    while i < n
        invariant
            i <= n,
            n == u@.len(),
            r@ == url_cleaned(u@.subrange(0, i as int)),
        decreases n - i,
    {
        let b: u8 = u[i];
        if b == 0x3b {
            r.push(0x20);
        } else {
            r.push(b);
        }
        i += 1;
        proof {
            assert(r@ =~= url_cleaned(u@.subrange(0, i as int)));
        }
    }
    proof {
        assert(u@.subrange(0, n as int) =~= u@);
    }
    r
}

fn parse_new(rest: &Vec<u8>) -> (r: Result<Command, Error>)
    ensures
        ({
            let sp = spec_parse_new(rest@);
            match r {
                Ok(c) => sp == Ok::<CommandView, Error>(c@) && command_bounds(c@),
                Err(e) => sp == Err::<CommandView, Error>(e),
            }
        }),
{
    let e0: usize = find_token_end(rest, 0);
    let tok0 = subvec(rest, 0, e0);
    let w = match parse_uint(&tok0, 255) {
        Some(v) => v,
        None => {
            return Err(Error::BadSyntax(SyntaxError::WidthNotInteger));
        },
    };
    if e0 >= rest.len() {
        return Err(Error::BadSyntax(SyntaxError::NoHeight));
    }
    let e1: usize = find_token_end(rest, e0 + 1);
    let tok1 = subvec(rest, e0 + 1, e1);
    let h = match parse_uint(&tok1, 255) {
        Some(v) => v,
        None => {
            return Err(Error::BadSyntax(SyntaxError::HeightNotInteger));
        },
    };
    if w < 3 || h < 3 {
        return Err(Error::BadSyntax(SyntaxError::DimensionsTooSmall));
    }
    proof {
        assert((w as int) * (h as int) <= 65025) by (nonlinear_arith)
            requires
                w <= 255,
                h <= 255,
        ;
    }
    if w * h > 1000 {
        return Err(Error::TooManyPieces);
    }
    if e1 >= rest.len() {
        return Err(Error::BadSyntax(SyntaxError::NoURL));
    }
    let e2: usize = find_token_end(rest, e1 + 1);
    let tok2 = subvec(rest, e1 + 1, e2);
    let url = clean_url(&tok2);
    if url.len() > 2048 {
        return Err(Error::ImageURLTooLong);
    }
    if e2 >= rest.len() {
        return Err(Error::BadSyntax(SyntaxError::NoSeed));
    }
    let e3: usize = find_token_end(rest, e2 + 1);
    let tok3 = subvec(rest, e2 + 1, e3);
    let seed = match parse_uint(&tok3, u32::MAX) {
        Some(v) => v,
        None => {
            return Err(Error::BadSyntax(SyntaxError::SeedNotInteger));
        },
    };
    Ok(Command::New(NewRequest { width: w as u8, height: h as u8, url, seed }))
}

/// Parse one text frame.  The result mirrors [`spec_parse_command`] exactly.
pub fn parse_command(line: &Vec<u8>) -> (r: Result<Command, Error>)
    ensures
        ({
            let sp = spec_parse_command(line@);
            match r {
                Ok(c) => sp == Ok::<CommandView, Error>(c@) && command_bounds(c@),
                Err(e) => sp == Err::<CommandView, Error>(e),
            }
        }),
{
    let front: usize = find_non_space(line, 0);
    let back: usize = find_non_space_back(line);
    let t: Vec<u8> = if front < back {
        subvec(line, front, back)
    } else {
        Vec::new()
    };
    proof {
        assert(t@ == trimmed(line@));
    }
    if t.len() >= 4 && t[0] == 0x6e && t[1] == 0x65 && t[2] == 0x77 && t[3] == 0x20 {
        proof {
            assert(t@.subrange(0, 4) =~= lit_new());
        }
        let rest = subvec(&t, 4, t.len());
        proof {
            assert(rest@ =~= t@.skip(4));
        }
        parse_new(&rest)
    } else if t.len() >= 5 && t[0] == 0x6a && t[1] == 0x6f && t[2] == 0x69 && t[3] == 0x6e && t[4]
        == 0x20 {
        proof {
            assert(!has_prefix(t@, lit_new()));
            assert(t@.subrange(0, 5) =~= lit_join());
        }
        let rest = subvec(&t, 5, t.len());
        proof {
            assert(rest@ =~= t@.skip(5));
        }
        if rest.len() == 7 {
            Ok(Command::Join(rest))
        } else {
            Err(Error::BadSyntax(SyntaxError::BadJoinID))
        }
    } else if t.len() >= 7 && t[0] == 0x72 && t[1] == 0x65 && t[2] == 0x6a && t[3] == 0x6f && t[4]
        == 0x69 && t[5] == 0x6e && t[6] == 0x20 {
        proof {
            assert(!has_prefix(t@, lit_new()));
            assert(!has_prefix(t@, lit_join()));
            assert(t@.subrange(0, 7) =~= lit_rejoin());
        }
        let rest = subvec(&t, 7, t.len());
        proof {
            assert(rest@ =~= t@.skip(7));
        }
        if rest.len() == 7 {
            Ok(Command::Rejoin(rest))
        } else {
            Err(Error::BadSyntax(SyntaxError::BadJoinID))
        }
    } else {
        proof {
            assert(!has_prefix(t@, lit_new()));
            assert(!has_prefix(t@, lit_join()));
            assert(!has_prefix(t@, lit_rejoin()));
        }
        if t.len() == 4 && t[0] == 0x70 && t[1] == 0x6f && t[2] == 0x6c && t[3] == 0x6c {
            proof {
                assert(t@ =~= lit_poll());
            }
            Ok(Command::Poll)
        } else if t.len() == 23 && t[0] == 0x72 && t[1] == 0x61 && t[2] == 0x6e && t[3] == 0x64
            && t[4] == 0x6f && t[5] == 0x6d && t[6] == 0x46 && t[7] == 0x65 && t[8] == 0x61 && t[9]
            == 0x74 && t[10] == 0x75 && t[11] == 0x72 && t[12] == 0x65 && t[13] == 0x64 && t[14]
            == 0x57 && t[15] == 0x69 && t[16] == 0x6b && t[17] == 0x69 && t[18] == 0x6d && t[19]
            == 0x65 && t[20] == 0x64 && t[21] == 0x69 && t[22] == 0x61 {
            proof {
                assert(t@ != lit_poll());
                assert(t@ =~= lit_random_featured());
            }
            Ok(Command::RandomFeatured)
        } else if t.len() == 13 && t[0] == 0x77 && t[1] == 0x69 && t[2] == 0x6b && t[3] == 0x69
            && t[4] == 0x6d && t[5] == 0x65 && t[6] == 0x64 && t[7] == 0x69 && t[8] == 0x61 && t[9]
            == 0x50 && t[10] == 0x6f && t[11] == 0x74 && t[12] == 0x64 {
            proof {
                assert(t@ != lit_poll());
                assert(t@ != lit_random_featured());
                assert(t@ =~= lit_potd());
            }
            Ok(Command::Potd)
        } else {
            proof {
                assert(t@ != lit_poll());
                assert(t@ != lit_random_featured());
                assert(t@ != lit_potd());
            }
            Ok(Command::Ignored)
        }
    }
}

} // verus!
