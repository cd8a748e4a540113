use vstd::prelude::*;

use crate::digest::{poll_digest, spec_poll_digest};
use crate::error::{Error, SyntaxError};
use crate::ids::random_below;
use crate::numbers::{dec_rep, push_dec};
use crate::presence::Presence;
use crate::puzzle::MAX_PLAYERS;
use crate::snapshot::{encode_poll_snapshot, opcode2_frame};
use crate::table::PieceInfo;

verus! {

/// `"id: "`.
pub open spec fn lit_id_reply() -> Seq<u8> {
    seq![0x69u8, 0x64u8, 0x3au8, 0x20u8]
}

/// `"rejoined"`.
pub open spec fn lit_rejoined() -> Seq<u8> {
    seq![0x72u8, 0x65u8, 0x6au8, 0x6fu8, 0x69u8, 0x6eu8, 0x65u8, 0x64u8]
}

/// `"ack "`.
pub open spec fn lit_ack() -> Seq<u8> {
    seq![0x61u8, 0x63u8, 0x6bu8, 0x20u8]
}

/// `"useImage "`.
pub open spec fn lit_use_image() -> Seq<u8> {
    seq![0x75u8, 0x73u8, 0x65u8, 0x49u8, 0x6du8, 0x61u8, 0x67u8, 0x65u8, 0x20u8]
}

/// The state of one client connection: which puzzle it has joined, if any,
/// and the digest its last answered `poll` saw.
pub struct Session {
    /// Key of the joined puzzle.
    pub joined: Option<u64>,
    /// Digest of the arrays sent by the last answered `poll`; zero at
    /// session start.
    pub last_poll_digest: u64,
}

/// The meaning of one `poll` against the arrays the store returned: if the
/// digest differs from the last answered one, record it and reply with the
/// opcode-2 frame; otherwise stay silent and unchanged.
pub open spec fn spec_poll(s: Session, pos: Seq<u32>, conn: Seq<u16>) -> (Session, Option<
    Seq<u8>,
>) {
    let h = spec_poll_digest(pos, conn);
    if h != s.last_poll_digest {
        (Session { joined: s.joined, last_poll_digest: h }, Some(opcode2_frame(pos, conn)))
    } else {
        (s, None)
    }
}

impl Session {
    /// A fresh, unjoined session.
    pub fn new() -> (r: Session)
        ensures
            r.joined is None,
            r.last_poll_digest == 0,
    {
        Session { joined: None, last_poll_digest: 0 }
    }

    /// The puzzle this session may mutate and poll; a session that has not
    /// joined one cannot.
    pub fn current(&self) -> (r: Result<u64, Error>)
        ensures
            match r {
                Ok(k) => self.joined == Some(k),
                Err(e) => e == Error::NotJoined && self.joined is None,
            },
    {
        match self.joined {
            Some(k) => Ok(k),
            None => Err(Error::NotJoined),
        }
    }

    /// Finish a `new`: the creating session owns the first seat, so the
    /// count is set to one outright, and the reply carries the fresh id.
    pub fn complete_new(&mut self, presence: &mut Presence, key: u64, id: &Vec<u8>) -> (r: Vec<
        u8,
    >)
        requires
            old(presence).wf(),
        ensures
            final(presence).wf(),
            final(presence)@ == old(presence)@.insert(key, 1u32),
            final(self).joined == Some(key),
            final(self).last_poll_digest == old(self).last_poll_digest,
            r@ == lit_id_reply() + id@,
    {
        presence.set_one(key);
        self.joined = Some(key);
        let mut r: Vec<u8> = Vec::new();
        r.push(0x69);
        r.push(0x64);
        r.push(0x3a);
        r.push(0x20);
        r.extend_from_slice(id.as_slice());
        proof {
            assert(r@ =~= lit_id_reply() + id@);
        }
        r
    }

    /// A `join`: take a seat if one is free and move to the joined state.
    /// The snapshot reply is encoded from the row the store returns.
    pub fn join(&mut self, presence: &mut Presence, key: u64) -> (r: Result<(), Error>)
        requires
            old(presence).wf(),
        ensures
            final(presence).wf(),
            final(self).last_poll_digest == old(self).last_poll_digest,
            match r {
                Ok(()) => {
                    &&& old(presence).count_of(key) < MAX_PLAYERS
                    &&& final(presence)@ == old(presence)@.insert(
                        key,
                        (old(presence).count_of(key) + 1) as u32,
                    )
                    &&& final(self).joined == Some(key)
                },
                Err(e) => {
                    &&& e == Error::TooManyPlayers
                    &&& old(presence).count_of(key) >= MAX_PLAYERS
                    &&& final(presence)@ == old(presence)@
                    &&& *final(self) == *old(self)
                },
            },
    {
        match presence.try_increment(key) {
            Ok(()) => {
                self.joined = Some(key);
                Ok(())
            },
            Err(e) => Err(e),
        }
    }

    /// A `rejoin`: only a session that never joined may resume a seat, and
    /// no snapshot is re-sent — the client kept its state.
    pub fn rejoin(&mut self, presence: &mut Presence, key: u64) -> (r: Result<Vec<u8>, Error>)
        requires
            old(presence).wf(),
        ensures
            final(presence).wf(),
            final(self).last_poll_digest == old(self).last_poll_digest,
            match r {
                Ok(f) => {
                    &&& old(self).joined is None
                    &&& old(presence).count_of(key) < MAX_PLAYERS
                    &&& final(presence)@ == old(presence)@.insert(
                        key,
                        (old(presence).count_of(key) + 1) as u32,
                    )
                    &&& final(self).joined == Some(key)
                    &&& f@ == lit_rejoined()
                },
                Err(e) => {
                    &&& final(presence)@ == old(presence)@
                    &&& *final(self) == *old(self)
                    &&& if old(self).joined is Some {
                        e == Error::BadSyntax(SyntaxError::UnexpectedRejoin)
                    } else {
                        e == Error::TooManyPlayers && old(presence).count_of(key) >= MAX_PLAYERS
                    }
                },
            },
    {
        if self.joined.is_some() {
            return Err(Error::BadSyntax(SyntaxError::UnexpectedRejoin));
        }
        match presence.try_increment(key) {
            Ok(()) => {
                self.joined = Some(key);
                let mut r: Vec<u8> = Vec::new();
                r.push(0x72);
                r.push(0x65);
                r.push(0x6a);
                r.push(0x6f);
                r.push(0x69);
                r.push(0x6e);
                r.push(0x65);
                r.push(0x64);
                proof {
                    assert(r@ =~= lit_rejoined());
                }
                Ok(r)
            },
            Err(e) => Err(e),
        }
    }

    /// Answer a `poll` from the arrays the store returned, suppressing the
    /// frame when nothing changed since the last answered `poll`.
    pub fn poll_reply(&mut self, pi: &PieceInfo) -> (r: Option<Vec<u8>>)
        ensures
            ({
                let (s2, f) = spec_poll(*old(self), pi.positions@, pi.connectivity@);
                &&& *final(self) == s2
                &&& match r {
                    Some(frame) => f == Some(frame@),
                    None => f is None,
                }
            }),
    {
        let h: u64 = poll_digest(&pi.positions, &pi.connectivity);
        if h != self.last_poll_digest {
            self.last_poll_digest = h;
            Some(encode_poll_snapshot(&pi.positions, &pi.connectivity))
        } else {
            None
        }
    }

    /// End of the connection: give the seat back, exactly once, whatever
    /// path ended the session.
    pub fn close(&mut self, presence: &mut Presence) -> (r: Result<(), Error>)
        requires
            old(presence).wf(),
        ensures
            final(presence).wf(),
            final(self).joined is None,
            old(self).joined is None ==> r == Ok::<(), Error>(()) && final(presence)@ == old(
                presence,
            )@,
            old(self).joined matches Some(key) ==> match r {
                Ok(()) => old(presence)@.contains_key(key) && (if old(presence).count_of(key)
                    <= 1 {
                    final(presence)@ == old(presence)@.remove(key)
                } else {
                    final(presence)@ == old(presence)@.insert(
                        key,
                        (old(presence).count_of(key) - 1) as u32,
                    )
                }),
                Err(e) => {
                    &&& e == Error::BadPuzzleID
                    &&& !old(presence)@.contains_key(key)
                    &&& final(presence)@ == old(presence)@
                },
            },
    {
        let r = match self.joined {
            Some(key) => presence.decrement(key),
            None => Ok(()),
        };
        self.joined = None;
        r
    }
}

/// The `ack <message_id>` reply that ends a successfully applied binary
/// batch.
pub fn ack_reply(message_id: u32) -> (r: Vec<u8>)
    ensures
        r@ == lit_ack() + dec_rep(message_id as nat),
{
    let mut r: Vec<u8> = Vec::new();
    r.push(0x61);
    r.push(0x63);
    r.push(0x6b);
    r.push(0x20);
    proof {
        assert(r@ =~= lit_ack());
    }
    push_dec(message_id, &mut r);
    r
}

/// The `useImage <url>` reply.
pub fn use_image_reply(url: &Vec<u8>) -> (r: Vec<u8>)
    ensures
        r@ == lit_use_image() + url@,
{
    let mut r: Vec<u8> = Vec::new();
    r.push(0x75);
    r.push(0x73);
    r.push(0x65);
    r.push(0x49);
    r.push(0x6d);
    r.push(0x61);
    r.push(0x67);
    r.push(0x65);
    r.push(0x20);
    r.extend_from_slice(url.as_slice());
    proof {
        assert(r@ =~= lit_use_image() + url@);
    }
    r
}

/// Answer `randomFeaturedWikimedia`: one of the featured image URLs, drawn
/// at random.
pub fn featured_reply(featured: &Vec<Vec<u8>>) -> (r: Vec<u8>)
    requires
        featured@.len() > 0,
    ensures
        exists|i: int|
            0 <= i < featured@.len() && r@ == lit_use_image() + #[trigger] featured@[i]@,
{
    let i: usize = random_below(featured.len());
    use_image_reply(&featured[i])
}

/// Two `poll`s with no mutation between them: the second changes nothing
/// and sends nothing, whatever the session saw before.
pub proof fn lemma_poll_suppression(s: Session, pos: Seq<u32>, conn: Seq<u16>)
    ensures
        ({
            let (s1, _r1) = spec_poll(s, pos, conn);
            let (s2, r2) = spec_poll(s1, pos, conn);
            s2 == s1 && r2 is None
        }),
{
}

} // verus!
