use vstd::prelude::*;

use crate::actions::{
    check_alignment, parse_action, parse_message_id, spec_check_alignment, spec_parse_action,
    spec_parse_message_id, Action,
};
use crate::commands::{parse_command, spec_parse_command, Command, CommandView, NewRequest};
use crate::error::Error;
use crate::ids::{generate_puzzle_id, id_key, is_id_byte, lemma_id_key_bound, spec_id_key, ID_LEN};
use crate::numbers::dec_rep;
use crate::presence::Presence;
use crate::puzzle::{initial_connectivity, initial_positions, PuzzleView, MAX_PIECES, MAX_PLAYERS};
use crate::session::{
    ack_reply, featured_reply, lit_ack, lit_id_reply, lit_rejoined, lit_use_image, spec_poll,
    use_image_reply, Session,
};
use crate::snapshot::{encode_puzzle_snapshot, opcode1_frame};
use crate::table::{map_connect, map_move, PuzzleTable, Row, RowView};

verus! {

/// How often the id allocator retries on key collisions before giving up.
/// With 57 ^ 7 possible identifiers, exhausting this budget by chance does
/// not happen; the bound only makes termination plain.
pub const ID_ALLOC_ATTEMPTS: usize = 10000;

/// One frame to send back to the client.
pub enum Reply {
    Text(Vec<u8>),
    Binary(Vec<u8>),
}

/// The meaning of a binary mutation batch from byte offset `pos` on, against
/// the table by value: actions apply in order; the first action that fails
/// aborts the batch, and what was already applied stays applied.
pub open spec fn run_batch(m: Map<u64, RowView>, key: u64, d: Seq<u8>, pos: int) -> (Map<
    u64,
    RowView,
>, Option<Error>)
    decreases d.len() - pos,
{
    match spec_parse_action(d, pos) {
        Ok(None) => (m, None),
        Err(e) => (m, Some(e)),
        Ok(Some((a, p2))) => if p2 <= pos || p2 > d.len() {
            (m, None)  // spec_parse_action never yields such an offset
        } else {
            match a {
                Action::Move { piece, x, y } => if piece > MAX_PIECES {
                    (m, Some(Error::BadPieceID))
                } else {
                    run_batch(map_move(m, key, piece, x, y), key, d, p2)
                },
                Action::Connect { a, b } => run_batch(map_connect(m, key, a, b), key, d, p2),
            }
        },
    }
}

/// Draw identifiers until the store takes one, within the retry budget.
/// Chance decides which id comes out; whatever it is, on success the table
/// holds one fresh bare row under the returned id and key.
fn allocate_fresh(table: &mut PuzzleTable, now: u64) -> (r: Option<(Vec<u8>, u64)>)
    requires
        old(table).wf(),
    ensures
        final(table).wf(),
        match r {
            Some((id, key)) => {
                &&& id@.len() == ID_LEN
                &&& forall|i: int| 0 <= i < id@.len() ==> is_id_byte(#[trigger] id@[i])
                &&& key == spec_id_key(id@)
                &&& !old(table)@.contains_key(key)
                &&& final(table)@ == old(table)@.insert(key, (Row { created: now, data: None }))
                &&& final(table).dview() == old(table).dview().insert(
                    key,
                    (RowView { created: now, data: None }),
                )
            },
            None => final(table)@ == old(table)@ && final(table).dview() == old(table).dview(),
        },
{
    let mut attempt: usize = 0;
    while attempt < ID_ALLOC_ATTEMPTS
        invariant
            table.wf(),
            table@ == old(table)@,
            table.dview() == old(table).dview(),
        decreases ID_ALLOC_ATTEMPTS - attempt,
    {
        let id = generate_puzzle_id();
        let key = id_key(&id);
        if table.allocate(key, now) {
            return Some((id, key));
        }
        attempt += 1;
    }
    None
}

/// The shared state of the whole server: the puzzle rows, the presence
/// counts, the featured-image list loaded at startup, and the current
/// picture of the day.
pub struct ServerCore {
    pub table: PuzzleTable,
    pub presence: Presence,
    pub featured: Vec<Vec<u8>>,
    pub potd: Vec<u8>,
}

impl ServerCore {
    /// Rows and counts are well-formed and the featured list is not empty.
    pub open spec fn wf(self) -> bool {
        &&& self.table.wf()
        &&& self.presence.wf()
        &&& self.featured@.len() > 0
    }

    /// A fresh server with no puzzles and no players.
    pub fn new(featured: Vec<Vec<u8>>, potd: Vec<u8>) -> (r: ServerCore)
        requires
            featured@.len() > 0,
        ensures
            r.wf(),
            r.table@ == Map::<u64, Row>::empty(),
            r.presence@ == Map::<u64, u32>::empty(),
            r.featured@ == featured@,
            r.potd@ == potd@,
    {
        ServerCore { table: PuzzleTable::new(), presence: Presence::new(), featured, potd }
    }

    /// Apply one binary mutation batch, exactly as [`run_batch`] says: the
    /// frame must hold whole words, the session must have joined, and the
    /// actions run in order against the joined puzzle until the first
    /// failure, which aborts the batch without rolling anything back.  A
    /// wholly applied batch is acknowledged with its message id.
    #[verifier::loop_isolation(false)]
    pub fn handle_binary(&mut self, sess: &mut Session, data: &Vec<u8>) -> (r: Result<Reply, Error>)
        requires
            old(self).wf(),
        ensures
            final(self).wf(),
            final(self).presence@ == old(self).presence@,
            final(self).featured@ == old(self).featured@,
            final(self).potd@ == old(self).potd@,
            *final(sess) == *old(sess),
            spec_check_alignment(data@) matches Err(e) ==> {
                &&& r == Err::<Reply, Error>(e)
                &&& final(self).table.dview() == old(self).table.dview()
            },
            spec_check_alignment(data@) is Ok && old(sess).joined is None ==> {
                &&& r == Err::<Reply, Error>(Error::NotJoined)
                &&& final(self).table.dview() == old(self).table.dview()
            },
            spec_check_alignment(data@) is Ok ==> (old(sess).joined matches Some(key) ==> {
                &&& spec_parse_message_id(data@) matches Err(e) ==> r == Err::<Reply, Error>(e)
                    && final(self).table.dview() == old(self).table.dview()
                &&& spec_parse_message_id(data@) matches Ok(mid) ==> {
                    let (m2, oe) = run_batch(old(self).table.dview(), key, data@, 4);
                    &&& final(self).table.dview() == m2
                    &&& match oe {
                        Some(e) => r == Err::<Reply, Error>(e),
                        None => r matches Ok(Reply::Text(f)) && f@ == lit_ack() + dec_rep(
                            mid as nat,
                        ),
                    }
                }
            }),
    {
        match check_alignment(data) {
            Ok(()) => (),
            Err(e) => {
                return Err(e);
            },
        }
        let key: u64 = match sess.current() {
            Ok(k) => k,
            Err(e) => {
                return Err(e);
            },
        };
        let mid: u32 = match parse_message_id(data) {
            Ok(m) => m,
            Err(e) => {
                return Err(e);
            },
        };
        let ghost m0 = self.table.dview();
        let n: usize = data.len();
        let mut pos: usize = 4;
        while pos < n
            invariant
                old(self).wf(),
                self.table.wf(),
                self.presence@ == old(self).presence@,
                self.presence.wf(),
                self.featured@ == old(self).featured@,
                self.potd@ == old(self).potd@,
                4 <= pos <= n,
                n == data@.len(),
                m0 == old(self).table.dview(),
                run_batch(m0, key, data@, 4) == run_batch(self.table.dview(), key, data@, pos as int),
            decreases n - pos,
        {
            match parse_action(data, pos) {
                Err(e) => {
                    proof {
                        assert(run_batch(self.table.dview(), key, data@, pos as int) == (
                        self.table.dview(),
                        Some(e),
                        ));
                    }
                    return Err(e);
                },
                Ok(None) => {
                    // With pos < n the parser cannot be at the end of the
                    // frame, so this arm is unreachable.
                    proof {
                        assert(false);
                    }
                },
                Ok(Some((action, p2))) => {
                    let ghost before = self.table.dview();
                    match action {
                        Action::Move { piece, x, y } => {
                            proof {
                                assert(crate::puzzle::coord_ok(x) && crate::puzzle::coord_ok(y));
                            }
                            match self.table.move_piece(key, piece, x, y) {
                                Ok(()) => (),
                                Err(e) => {
                                    proof {
                                        assert(piece > MAX_PIECES);
                                        assert(run_batch(before, key, data@, pos as int) == (
                                        before,
                                        Some(Error::BadPieceID),
                                        ));
                                    }
                                    return Err(e);
                                },
                            }
                            proof {
                                assert(run_batch(before, key, data@, pos as int) == run_batch(
                                    self.table.dview(),
                                    key,
                                    data@,
                                    p2 as int,
                                ));
                            }
                        },
                        Action::Connect { a, b } => {
                            self.table.connect_pieces(key, a, b);
                            proof {
                                assert(run_batch(before, key, data@, pos as int) == run_batch(
                                    self.table.dview(),
                                    key,
                                    data@,
                                    p2 as int,
                                ));
                            }
                        },
                    }
                    pos = p2;
                },
            }
        }
        proof {
            assert(run_batch(self.table.dview(), key, data@, pos as int) == (
            self.table.dview(),
            None::<Error>,
            ));
        }
        Ok(Reply::Text(ack_reply(mid)))
    }

    /// Create a puzzle: allocate a fresh id, populate the row with zero
    /// positions and the identity labelling, and seat the creator.
    fn handle_new(&mut self, sess: &mut Session, req: NewRequest, now: u64) -> (r: Result<
        Option<Reply>,
        Error,
    >)
        requires
            old(self).wf(),
            3 <= req.width,
            3 <= req.height,
            req.width * req.height <= MAX_PIECES,
            req.url@.len() <= 2048,
        ensures
            final(self).wf(),
            final(self).featured@ == old(self).featured@,
            final(self).potd@ == old(self).potd@,
            match r {
                Ok(Some(Reply::Text(f))) => some_puzzle_created(
                    req.width,
                    req.height,
                    req.url@,
                    req.seed,
                    now,
                    old(self).table.dview(),
                    final(self).table.dview(),
                    old(self).presence@,
                    final(self).presence@,
                    *final(sess),
                    f@,
                ),
                Err(e) => e == Error::BadPuzzleID && quiet(
                    old(self).table.dview(),
                    final(self).table.dview(),
                    old(self).presence@,
                    final(self).presence@,
                    *old(sess),
                    *final(sess),
                ),
                _ => false,
            },
    {
        let NewRequest { width, height, url, seed } = req;
        let ghost url_view = url@;
        match allocate_fresh(&mut self.table, now) {
            Some((id, key)) => {
                let positions = initial_positions(width, height);
                let connectivity = initial_connectivity(width, height);
                let ghost pos_view = positions@;
                let ghost conn_view = connectivity@;
                self.table.populate(key, width, height, url, positions, connectivity, seed);
                let f = sess.complete_new(&mut self.presence, key, &id);
                proof {
                    lemma_id_key_bound(id@);
                    assert(pos_view =~= Seq::new((2 * (width * height)) as nat, |i: int| 0u32));
                    assert(conn_view =~= Seq::new((width * height) as nat, |i: int| i as u16));
                    assert(self.table.dview() =~~= old(self).table.dview().insert(
                        key,
                        (RowView {
                            created: now,
                            data: Some(
                                PuzzleView {
                                    width,
                                    height,
                                    url: url_view,
                                    seed,
                                    positions: pos_view,
                                    connectivity: conn_view,
                                },
                            ),
                        }),
                    ));
                    assert(created_puzzle(
                        id@,
                        key,
                        width,
                        height,
                        url_view,
                        seed,
                        now,
                        old(self).table.dview(),
                        self.table.dview(),
                        old(self).presence@,
                        self.presence@,
                        *sess,
                        f@,
                    ));
                    assert(some_puzzle_created(
                        width,
                        height,
                        url_view,
                        seed,
                        now,
                        old(self).table.dview(),
                        self.table.dview(),
                        old(self).presence@,
                        self.presence@,
                        *sess,
                        f@,
                    ));
                }
                Ok(Some(Reply::Text(f)))
            },
            None => Err(Error::BadPuzzleID),
        }
    }

    /// Dispatch one text frame, exactly as the transition table of the
    /// session machine says.  The reply is at most one frame; an error
    /// return means the session must send `error <message>` and close.
    #[verifier::rlimit(100)]
    pub fn handle_text(&mut self, sess: &mut Session, line: &Vec<u8>, now: u64) -> (r: Result<
        Option<Reply>,
        Error,
    >)
        requires
            old(self).wf(),
        ensures
            final(self).wf(),
            final(self).featured@ == old(self).featured@,
            final(self).potd@ == old(self).potd@,
            spec_parse_command(line@) matches Err(e) ==> r == Err::<Option<Reply>, Error>(e)
                && quiet(
                old(self).table.dview(),
                final(self).table.dview(),
                old(self).presence@,
                final(self).presence@,
                *old(sess),
                *final(sess),
            ),
            spec_parse_command(line@) matches Ok(CommandView::New { width, height, url, seed })
                ==> match r {
                Ok(Some(Reply::Text(f))) => some_puzzle_created(
                    width,
                    height,
                    url,
                    seed,
                    now,
                    old(self).table.dview(),
                    final(self).table.dview(),
                    old(self).presence@,
                    final(self).presence@,
                    *final(sess),
                    f@,
                ),
                Err(e) => e == Error::BadPuzzleID && quiet(
                    old(self).table.dview(),
                    final(self).table.dview(),
                    old(self).presence@,
                    final(self).presence@,
                    *old(sess),
                    *final(sess),
                ),
                _ => false,
            },
            spec_parse_command(line@) matches Ok(CommandView::Join { id }) ==> ({
                let t0 = old(self).table.dview();
                let key = (spec_id_key(id) as u64);
                match r {
                    Ok(Some(Reply::Binary(f))) => {
                        &&& old(self).presence.count_of(key) < MAX_PLAYERS
                        &&& t0.contains_key(key)
                        &&& t0[key].data matches Some(p) && f@ == opcode1_frame(
                            p.width,
                            p.height,
                            p.url,
                            p.seed,
                            p.positions,
                            p.connectivity,
                        )
                        &&& final(self).table.dview() == t0
                        &&& final(self).presence@ == old(self).presence@.insert(
                            key,
                            (old(self).presence.count_of(key) + 1) as u32,
                        )
                        &&& final(sess).joined == Some(key)
                        &&& final(sess).last_poll_digest == old(sess).last_poll_digest
                    },
                    Err(e) => if e == Error::TooManyPlayers {
                        &&& old(self).presence.count_of(key) >= MAX_PLAYERS
                        &&& quiet(
                            t0,
                            final(self).table.dview(),
                            old(self).presence@,
                            final(self).presence@,
                            *old(sess),
                            *final(sess),
                        )
                    } else {
                        &&& e == Error::BadPuzzleID
                        &&& old(self).presence.count_of(key) < MAX_PLAYERS
                        &&& !(t0.contains_key(key) && t0[key].data is Some)
                        &&& final(self).table.dview() == t0
                        &&& final(self).presence@ == old(self).presence@.insert(
                            key,
                            (old(self).presence.count_of(key) + 1) as u32,
                        )
                        &&& final(sess).joined == Some(key)
                        &&& final(sess).last_poll_digest == old(sess).last_poll_digest
                    },
                    _ => false,
                }
            }),
            spec_parse_command(line@) matches Ok(CommandView::Rejoin { id }) ==> ({
                let key = (spec_id_key(id) as u64);
                match r {
                    Ok(Some(Reply::Text(f))) => {
                        &&& old(sess).joined is None
                        &&& old(self).presence.count_of(key) < MAX_PLAYERS
                        &&& f@ == lit_rejoined()
                        &&& final(self).table.dview() == old(self).table.dview()
                        &&& final(self).presence@ == old(self).presence@.insert(
                            key,
                            (old(self).presence.count_of(key) + 1) as u32,
                        )
                        &&& final(sess).joined == Some(key)
                        &&& final(sess).last_poll_digest == old(sess).last_poll_digest
                    },
                    Err(e) => {
                        &&& quiet(
                            old(self).table.dview(),
                            final(self).table.dview(),
                            old(self).presence@,
                            final(self).presence@,
                            *old(sess),
                            *final(sess),
                        )
                        &&& if old(sess).joined is Some {
                            e == Error::BadSyntax(crate::error::SyntaxError::UnexpectedRejoin)
                        } else {
                            e == Error::TooManyPlayers && old(self).presence.count_of(key)
                                >= MAX_PLAYERS
                        }
                    },
                    _ => false,
                }
            }),
            spec_parse_command(line@) matches Ok(CommandView::Poll) ==> ({
                let t0 = old(self).table.dview();
                match old(sess).joined {
                    None => r == Err::<Option<Reply>, Error>(Error::NotJoined) && quiet(
                        t0,
                        final(self).table.dview(),
                        old(self).presence@,
                        final(self).presence@,
                        *old(sess),
                        *final(sess),
                    ),
                    Some(key) => {
                        &&& final(self).table.dview() == t0
                        &&& final(self).presence@ == old(self).presence@
                        &&& if t0.contains_key(key) && t0[key].data is Some {
                            let p = t0[key].data->Some_0;
                            let (s2, of) = spec_poll(*old(sess), p.positions, p.connectivity);
                            &&& *final(sess) == s2
                            &&& match of {
                                Some(b) => r matches Ok(Some(Reply::Binary(f))) && f@ == b,
                                None => r == Ok::<Option<Reply>, Error>(None),
                            }
                        } else {
                            r == Err::<Option<Reply>, Error>(Error::BadPuzzleID) && *final(sess)
                                == *old(sess)
                        }
                    },
                }
            }),
            spec_parse_command(line@) matches Ok(CommandView::RandomFeatured) ==> ({
                &&& quiet(
                    old(self).table.dview(),
                    final(self).table.dview(),
                    old(self).presence@,
                    final(self).presence@,
                    *old(sess),
                    *final(sess),
                )
                &&& r matches Ok(Some(Reply::Text(f))) && exists|i: int|
                    0 <= i < old(self).featured@.len() && f@ == lit_use_image()
                        + #[trigger] old(self).featured@[i]@
            }),
            spec_parse_command(line@) matches Ok(CommandView::Potd) ==> ({
                &&& quiet(
                    old(self).table.dview(),
                    final(self).table.dview(),
                    old(self).presence@,
                    final(self).presence@,
                    *old(sess),
                    *final(sess),
                )
                &&& r matches Ok(Some(Reply::Text(f))) && f@ == lit_use_image() + old(self).potd@
            }),
            spec_parse_command(line@) matches Ok(CommandView::Ignored) ==> r == Ok::<
                Option<Reply>,
                Error,
            >(None) && quiet(
                old(self).table.dview(),
                final(self).table.dview(),
                old(self).presence@,
                final(self).presence@,
                *old(sess),
                *final(sess),
            ),
    {
        let cmd: Command = match parse_command(line) {
            Ok(c) => c,
            Err(e) => {
                return Err(e);
            },
        };
        match cmd {
            Command::New(req) => self.handle_new(sess, req, now),
            Command::Join(idvec) => {
                let key: u64 = id_key(&idvec);
                proof {
                    lemma_id_key_bound(idvec@);
                }
                match sess.join(&mut self.presence, key) {
                    Ok(()) => (),
                    Err(e) => {
                        return Err(e);
                    },
                }
                match self.table.get_puzzle_info(key) {
                    Ok(p) => {
                        let f = encode_puzzle_snapshot(
                            p.width,
                            p.height,
                            &p.url,
                            p.seed,
                            &p.positions,
                            &p.connectivity,
                        );
                        Ok(Some(Reply::Binary(f)))
                    },
                    Err(e) => Err(e),
                }
            },
            Command::Rejoin(idvec) => {
                let key: u64 = id_key(&idvec);
                proof {
                    lemma_id_key_bound(idvec@);
                }
                match sess.rejoin(&mut self.presence, key) {
                    Ok(f) => Ok(Some(Reply::Text(f))),
                    Err(e) => Err(e),
                }
            },
            Command::Poll => {
                let key: u64 = match sess.current() {
                    Ok(k) => k,
                    Err(e) => {
                        return Err(e);
                    },
                };
                let pi = match self.table.get_piece_info(key) {
                    Ok(pi) => pi,
                    Err(e) => {
                        return Err(e);
                    },
                };
                match sess.poll_reply(&pi) {
                    Some(f) => Ok(Some(Reply::Binary(f))),
                    None => Ok(None),
                }
            },
            Command::RandomFeatured => {
                let f = featured_reply(&self.featured);
                Ok(Some(Reply::Text(f)))
            },
            Command::Potd => {
                let f = use_image_reply(&self.potd);
                Ok(Some(Reply::Text(f)))
            },
            Command::Ignored => Ok(None),
        }
    }
}

/// Nothing observable changed: rows, counts and session are as before.
pub open spec fn quiet(
    t0: Map<u64, RowView>,
    t1: Map<u64, RowView>,
    p0: Map<u64, u32>,
    p1: Map<u64, u32>,
    s0: Session,
    s1: Session,
) -> bool {
    &&& t1 == t0
    &&& p1 == p0
    &&& s1 == s0
}

/// Some fresh identifier exists for which [`created_puzzle`] holds.
pub open spec fn some_puzzle_created(
    width: u8,
    height: u8,
    url: Seq<u8>,
    seed: u32,
    now: u64,
    t0: Map<u64, RowView>,
    t1: Map<u64, RowView>,
    p0: Map<u64, u32>,
    p1: Map<u64, u32>,
    s1: Session,
    f: Seq<u8>,
) -> bool {
    exists|id: Seq<u8>, key: u64|
        #[trigger] created_puzzle(id, key, width, height, url, seed, now, t0, t1, p0, p1, s1, f)
}

/// What a successful `new` leaves behind: a fresh id of 7 alphabet bytes
/// whose key was free, now mapping to a populated row created `now` with
/// all-zero positions and the identity group labelling; the creating
/// session owns the single seat and receives `id: <id>`.
pub open spec fn created_puzzle(
    id: Seq<u8>,
    key: u64,
    width: u8,
    height: u8,
    url: Seq<u8>,
    seed: u32,
    now: u64,
    t0: Map<u64, RowView>,
    t1: Map<u64, RowView>,
    p0: Map<u64, u32>,
    p1: Map<u64, u32>,
    s1: Session,
    f: Seq<u8>,
) -> bool {
    &&& id.len() == ID_LEN
    &&& (forall|i: int| 0 <= i < id.len() ==> is_id_byte(#[trigger] id[i]))
    &&& key == spec_id_key(id)
    &&& !t0.contains_key(key)
    &&& t1 == t0.insert(
        key,
        (RowView {
            created: now,
            data: Some(
                PuzzleView {
                    width,
                    height,
                    url,
                    seed,
                    positions: Seq::new((2 * (width * height)) as nat, |i: int| 0u32),
                    connectivity: Seq::new((width * height) as nat, |i: int| i as u16),
                },
            ),
        }),
    )
    &&& p1 == p0.insert(key, 1u32)
    &&& s1.joined == Some(key)
    &&& f == lit_id_reply() + id
}

} // verus!
