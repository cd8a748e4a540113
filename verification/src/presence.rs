use vstd::prelude::*;

use std::collections::HashMap;

use crate::error::Error;
use crate::puzzle::MAX_PLAYERS;

verus! {

broadcast use vstd::std_specs::hash::group_hash_axioms;

/// Process-wide player bookkeeping: how many open sessions are joined to
/// each puzzle, keyed by the identifier's condensed key.  Deliberately
/// non-durable — a restart forgives orphaned counts.
pub struct Presence {
    counts: HashMap<u64, u32>,
}

impl View for Presence {
    type V = Map<u64, u32>;

    closed spec fn view(&self) -> Map<u64, u32> {
        self.counts@
    }
}

impl Presence {
    /// Every tracked count is in `[1, MAX_PLAYERS]`: an entry disappears
    /// when its count reaches zero.
    pub open spec fn wf(self) -> bool {
        forall|k: u64| self@.contains_key(k) ==> 1 <= #[trigger] self@[k] <= MAX_PLAYERS
    }

    /// The player count of a puzzle; zero when untracked.
    pub open spec fn count_of(self, key: u64) -> int {
        if self@.contains_key(key) {
            self@[key] as int
        } else {
            0
        }
    }

    /// An empty tracker, as at process start.
    pub fn new() -> (r: Presence)
        ensures
            r@ == Map::<u64, u32>::empty(),
            r.wf(),
    {
        Presence { counts: HashMap::new() }
    }

    /// Admit one more player: fails with `too many players` at the cap,
    /// otherwise increments, starting at 1 for an untracked puzzle.
    pub fn try_increment(&mut self, key: u64) -> (r: Result<(), Error>)
        requires
            old(self).wf(),
        ensures
            final(self).wf(),
            match r {
                Ok(()) => old(self).count_of(key) < MAX_PLAYERS && final(self)@ == old(
                    self,
                )@.insert(key, (old(self).count_of(key) + 1) as u32),
                Err(e) => e == Error::TooManyPlayers && old(self).count_of(key) >= MAX_PLAYERS
                    && final(self)@ == old(self)@,
            },
    {
        let current: u32 = match self.counts.get(&key) {
            Some(c) => *c,
            None => 0,
        };
        if current >= MAX_PLAYERS {
            Err(Error::TooManyPlayers)
        } else {
            self.counts.insert(key, current + 1);
            proof {
                assert forall|k: u64| self@.contains_key(k) implies 1 <= #[trigger] self@[k]
                    <= MAX_PLAYERS by {
                    if k != key {
                        assert(old(self)@.contains_key(k) && old(self)@[k] == self@[k]);
                    }
                }
            }
            Ok(())
        }
    }

    /// Release one player on a terminal session path: decrements, removing
    /// the entry at zero; an untracked puzzle is a caller error, reported
    /// as `bad puzzle ID` and tolerated.
    pub fn decrement(&mut self, key: u64) -> (r: Result<(), Error>)
        requires
            old(self).wf(),
        ensures
            final(self).wf(),
            match r {
                Ok(()) => old(self)@.contains_key(key) && (if old(self).count_of(key) <= 1 {
                    final(self)@ == old(self)@.remove(key)
                } else {
                    final(self)@ == old(self)@.insert(key, (old(self).count_of(key) - 1) as u32)
                }),
                Err(e) => e == Error::BadPuzzleID && !old(self)@.contains_key(key) && final(self)@
                    == old(self)@,
            },
    {
        let current: u32 = match self.counts.get(&key) {
            Some(c) => *c,
            None => {
                return Err(Error::BadPuzzleID);
            },
        };
        if current <= 1 {
            self.counts.remove(&key);
            proof {
                assert(self@ == old(self)@.remove(key));
                assert forall|k: u64| self@.contains_key(k) implies 1 <= #[trigger] self@[k]
                    <= MAX_PLAYERS by {
                    assert(old(self)@.contains_key(k) && old(self)@[k] == self@[k]);
                }
            }
        } else {
            self.counts.insert(key, current - 1);
            proof {
                assert(self@ == old(self)@.insert(key, (current - 1) as u32));
                assert forall|k: u64| self@.contains_key(k) implies 1 <= #[trigger] self@[k]
                    <= MAX_PLAYERS by {
                    if k != key {
                        assert(old(self)@.contains_key(k) && old(self)@[k] == self@[k]);
                    }
                }
            }
        }
        Ok(())
    }

    /// Record exactly one player, as when a fresh puzzle is created by the
    /// session that will own its first seat.
    pub fn set_one(&mut self, key: u64)
        requires
            old(self).wf(),
        ensures
            final(self).wf(),
            final(self)@ == old(self)@.insert(key, 1u32),
    {
        self.counts.insert(key, 1);
    }

    /// Read the current count of a puzzle.
    pub fn count(&self, key: u64) -> (r: u32)
        ensures
            r == self.count_of(key),
    {
        match self.counts.get(&key) {
            Some(c) => *c,
            None => 0,
        }
    }
}

} // verus!
