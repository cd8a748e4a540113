use vstd::prelude::*;

use std::collections::HashMap;

use crate::error::Error;
use crate::puzzle::{connect_labels, coord_ok, move_positions, Puzzle, PuzzleView, MAX_PIECES};

verus! {

broadcast use vstd::std_specs::hash::group_hash_axioms;

/// Rows older than this many seconds are swept.
pub const WEEK_SECONDS: u64 = 604800;

/// One stored row: its creation time and, once populated, the puzzle data.
/// Between `allocate` and `populate` only the key exists; every guarded
/// update then matches nothing, and reads report `bad puzzle ID`.
pub struct Row {
    pub created: u64,
    pub data: Option<Puzzle>,
}

/// The mutable arrays of one puzzle, as `poll` reads them.
#[derive(Debug)]
pub struct PieceInfo {
    pub positions: Vec<u32>,
    pub connectivity: Vec<u16>,
}

/// The row-store semantics that every mutation of puzzle state must have:
/// a keyed table of rows with atomic single-row conditional updates.  The
/// serving binary holds this table in a relational store whose statements
/// implement exactly these contracts; this model is what the rest of the
/// crate is verified against, and what the tests run.
pub struct PuzzleTable {
    rows: HashMap<u64, Row>,
    keys: Vec<u64>,
}

/// A row is stale once a week has passed since its creation.
pub open spec fn stale(row: Row, now: u64) -> bool {
    row.created + WEEK_SECONDS <= now
}

/// A stored row by value.
pub struct RowView {
    pub created: u64,
    pub data: Option<PuzzleView>,
}

impl Row {
    /// The row by value.
    pub open spec fn rview(self) -> RowView {
        RowView {
            created: self.created,
            data: match self.data {
                Some(p) => Some(p.pview()),
                None => None,
            },
        }
    }
}

/// The effect of the guarded `move` update on the table by value: if `key`
/// names a populated row, its positions change as [`move_positions`] says;
/// any other table is untouched.
pub open spec fn map_move(m: Map<u64, RowView>, key: u64, piece: u32, x: u32, y: u32) -> Map<
    u64,
    RowView,
> {
    if m.contains_key(key) && m[key].data is Some {
        let p = m[key].data->Some_0;
        m.insert(
            key,
            RowView {
                created: m[key].created,
                data: Some(
                    PuzzleView {
                        positions: move_positions(p.positions, piece as int, x, y),
                        ..p
                    },
                ),
            },
        )
    } else {
        m
    }
}

/// The effect of the guarded `connect` update on the table by value.
pub open spec fn map_connect(m: Map<u64, RowView>, key: u64, a: u32, b: u32) -> Map<u64, RowView> {
    if m.contains_key(key) && m[key].data is Some {
        let p = m[key].data->Some_0;
        m.insert(
            key,
            RowView {
                created: m[key].created,
                data: Some(
                    PuzzleView {
                        connectivity: connect_labels(p.connectivity, a as int, b as int),
                        ..p
                    },
                ),
            },
        )
    } else {
        m
    }
}

/// For every populated puzzle row, at all times: the positions array holds
/// exactly `2·width·height` entries, the connectivity array exactly
/// `width·height`, and every group label names a piece of the board.
pub proof fn lemma_allocated_arrays_sized(t: PuzzleTable, key: u64)
    requires
        t.wf(),
        t.populated(key),
    ensures
        t@[key].data matches Some(p) && p.positions@.len() == 2 * (p.width * p.height)
            && p.connectivity@.len() == p.width * p.height && (forall|i: int|
            0 <= i < p.connectivity@.len() ==> (#[trigger] p.connectivity@[i] as int) < p.width
                * p.height),
{
    assert(t@[key].data matches Some(p) ==> p.wf());
}

fn copy_vec<T: Copy>(v: &Vec<T>) -> (r: Vec<T>)
    ensures
        r@ == v@,
{
    let n: usize = v.len();
    let mut r: Vec<T> = Vec::new();
    let mut i: usize = 0;
    while i < n
        invariant
            i <= n,
            n == v@.len(),
            r@ == v@.subrange(0, i as int),
        decreases n - i,
    {
        r.push(v[i]);
        i += 1;
        proof {
            assert(r@ =~= v@.subrange(0, i as int));
        }
    }
    proof {
        assert(v@.subrange(0, n as int) =~= v@);
    }
    r
}

impl View for PuzzleTable {
    type V = Map<u64, Row>;

    closed spec fn view(&self) -> Map<u64, Row> {
        self.rows@
    }
}

impl PuzzleTable {
    /// The key list mirrors the map and every populated row is well-formed.
    pub closed spec fn wf(self) -> bool {
        &&& forall|i: int|
            0 <= i < self.keys@.len() ==> self.rows@.contains_key(#[trigger] self.keys@[i])
        &&& forall|k: u64| self.rows@.contains_key(k) ==> #[trigger] self.keys@.contains(k)
        &&& self.keys@.no_duplicates()
        &&& forall|k: u64|
            self.rows@.contains_key(k) ==> (#[trigger] self.rows@[k].data matches Some(p)
                ==> p.wf())
    }

    /// A populated, well-formed row is stored under `key`.
    pub open spec fn populated(self, key: u64) -> bool {
        self@.contains_key(key) && self@[key].data is Some
    }

    /// The whole table by value.
    pub open spec fn dview(self) -> Map<u64, RowView> {
        self@.map_values(|r: Row| r.rview())
    }

    /// Rows other than `key` are exactly as before.
    pub open spec fn unchanged_except(old_m: Map<u64, Row>, new_m: Map<u64, Row>, key: u64) -> bool {
        &&& forall|k: u64|
            k != key ==> (new_m.contains_key(k) <==> #[trigger] old_m.contains_key(k))
        &&& forall|k: u64| k != key && old_m.contains_key(k) ==> #[trigger] new_m[k] == old_m[k]
    }

    /// An empty table.
    pub fn new() -> (r: PuzzleTable)
        ensures
            r@ == Map::<u64, Row>::empty(),
            r.wf(),
    {
        PuzzleTable { rows: HashMap::new(), keys: Vec::new() }
    }

    /// Insert a row holding only the key, created `now`.  Reports whether
    /// the insertion happened: a key collision leaves the table unchanged
    /// and never raises.
    pub fn allocate(&mut self, key: u64, now: u64) -> (r: bool)
        requires
            old(self).wf(),
        ensures
            final(self).wf(),
            r == !old(self)@.contains_key(key),
            r ==> final(self)@ == old(self)@.insert(key, (Row { created: now, data: None })),
            r ==> final(self).dview() == old(self).dview().insert(
                key,
                (RowView { created: now, data: None }),
            ),
            !r ==> final(self)@ == old(self)@ && final(self).dview() == old(self).dview(),
    {
        if self.rows.contains_key(&key) {
            false
        } else {
            self.rows.insert(key, Row { created: now, data: None });
            self.keys.push(key);
            proof {
                assert(self.dview() =~~= old(self).dview().insert(
                    key,
                    (RowView { created: now, data: None }),
                ));
                assert forall|k: u64| self.rows@.contains_key(k) implies #[trigger] self.keys@.contains(
                    k,
                ) by {
                    if k == key {
                        assert(self.keys@.last() == key);
                    } else {
                        assert(old(self).keys@.contains(k));
                        let i = choose|i: int|
                            0 <= i < old(self).keys@.len() && old(self).keys@[i] == k;
                        assert(self.keys@[i] == k);
                    }
                }
            }
            true
        }
    }

    /// Unconditionally set all non-key fields of an allocated row; a
    /// missing key matches nothing.
    pub fn populate(
        &mut self,
        key: u64,
        width: u8,
        height: u8,
        url: Vec<u8>,
        positions: Vec<u32>,
        connectivity: Vec<u16>,
        seed: u32,
    )
        requires
            old(self).wf(),
            3 <= width,
            3 <= height,
            width * height <= MAX_PIECES,
            url@.len() <= 2048,
            positions@.len() == 2 * (width * height),
            connectivity@.len() == width * height,
            forall|i: int|
                0 <= i < connectivity@.len() ==> (#[trigger] connectivity@[i] as int) < width
                    * height,
            forall|i: int| 0 <= i < positions@.len() ==> coord_ok(#[trigger] positions@[i]),
        ensures
            final(self).wf(),
            Self::unchanged_except(old(self)@, final(self)@, key),
            old(self)@.contains_key(key) ==> {
                &&& final(self)@.contains_key(key)
                &&& final(self)@[key].created == old(self)@[key].created
                &&& final(self)@[key].data matches Some(p) && p.width == width && p.height
                    == height && p.url@ == url@ && p.seed == seed && p.positions@ == positions@
                    && p.connectivity@ == connectivity@
            },
            old(self)@.contains_key(key) ==> final(self).dview() == old(self).dview().insert(
                key,
                (RowView {
                    created: old(self).dview()[key].created,
                    data: Some(
                        PuzzleView {
                            width,
                            height,
                            url: url@,
                            seed,
                            positions: positions@,
                            connectivity: connectivity@,
                        },
                    ),
                }),
            ),
            !old(self)@.contains_key(key) ==> final(self)@ == old(self)@ && final(self).dview()
                == old(self).dview(),
    {
        match self.rows.remove(&key) {
            Some(row) => {
                let puzzle = Puzzle { width, height, url, seed, positions, connectivity };
                self.rows.insert(key, Row { created: row.created, data: Some(puzzle) });
                proof {
                    assert(self.rows@ =~= old(self).rows@.insert(
                        key,
                        self.rows@[key],
                    ));
                    assert(self.dview() =~~= old(self).dview().insert(
                        key,
                        self.dview()[key],
                    ));
                }
            },
            None => {
                proof {
                    assert(self.rows@ =~= old(self).rows@);
                }
            },
        }
    }

    /// Set the two coordinates of `piece` in the row's positions array, if
    /// the row is populated and `piece` names one of its pieces; a piece
    /// index beyond the protocol cap is rejected before touching the table.
    pub fn move_piece(&mut self, key: u64, piece: u32, x: u32, y: u32) -> (r: Result<(), Error>)
        requires
            old(self).wf(),
            coord_ok(x),
            coord_ok(y),
        ensures
            final(self).wf(),
            piece > MAX_PIECES ==> r == Err::<(), Error>(Error::BadPieceID) && final(self)@ == old(
                self,
            )@,
            piece <= MAX_PIECES ==> {
                &&& r == Ok::<(), Error>(())
                &&& final(self).dview() == map_move(old(self).dview(), key, piece, x, y)
                &&& Self::unchanged_except(old(self)@, final(self)@, key)
                &&& old(self).populated(key) ==> {
                    &&& final(self)@.contains_key(key)
                    &&& final(self)@[key].created == old(self)@[key].created
                    &&& final(self)@[key].data matches Some(p) && old(self)@[key].data matches Some(
                        q,
                    ) && p.width == q.width && p.height == q.height && p.url@ == q.url@ && p.seed
                        == q.seed && p.connectivity@ == q.connectivity@ && p.positions@
                        == move_positions(q.positions@, piece as int, x, y)
                }
                &&& !old(self).populated(key) ==> final(self)@ == old(self)@
            },
    {
        if piece > MAX_PIECES {
            return Err(Error::BadPieceID);
        }
        match self.rows.remove(&key) {
            Some(row) => {
                match row.data {
                    Some(mut puzzle) => {
                        puzzle.apply_move(piece, x, y);
                        self.rows.insert(key, Row { created: row.created, data: Some(puzzle) });
                        proof {
                            assert(self.rows@ =~= old(self).rows@.insert(key, self.rows@[key]));
                            assert(self.dview() =~~= map_move(
                                old(self).dview(),
                                key,
                                piece,
                                x,
                                y,
                            ));
                        }
                    },
                    None => {
                        self.rows.insert(key, Row { created: row.created, data: None });
                        proof {
                            assert(self.rows@ =~= old(self).rows@);
                            assert(self.dview() =~~= map_move(
                                old(self).dview(),
                                key,
                                piece,
                                x,
                                y,
                            ));
                        }
                    },
                }
            },
            None => {
                proof {
                    assert(self.rows@ =~= old(self).rows@);
                    assert(self.dview() =~~= map_move(old(self).dview(), key, piece, x, y));
                }
            },
        }
        Ok(())
    }

    /// Merge the group of piece `a` into the group of piece `b` in the
    /// row's connectivity array, atomically, if the row is populated; the
    /// in-range guard lives in the replace itself.
    pub fn connect_pieces(&mut self, key: u64, a: u32, b: u32)
        requires
            old(self).wf(),
        ensures
            final(self).wf(),
            final(self).dview() == map_connect(old(self).dview(), key, a, b),
            Self::unchanged_except(old(self)@, final(self)@, key),
            old(self).populated(key) ==> {
                &&& final(self)@.contains_key(key)
                &&& final(self)@[key].created == old(self)@[key].created
                &&& final(self)@[key].data matches Some(p) && old(self)@[key].data matches Some(q)
                    && p.width == q.width && p.height == q.height && p.url@ == q.url@ && p.seed
                    == q.seed && p.positions@ == q.positions@ && p.connectivity@ == connect_labels(
                    q.connectivity@,
                    a as int,
                    b as int,
                )
            },
            !old(self).populated(key) ==> final(self)@ == old(self)@,
    {
        match self.rows.remove(&key) {
            Some(row) => {
                match row.data {
                    Some(mut puzzle) => {
                        puzzle.apply_connect(a, b);
                        self.rows.insert(key, Row { created: row.created, data: Some(puzzle) });
                        proof {
                            assert(self.rows@ =~= old(self).rows@.insert(key, self.rows@[key]));
                            assert(self.dview() =~~= map_connect(old(self).dview(), key, a, b));
                        }
                    },
                    None => {
                        self.rows.insert(key, Row { created: row.created, data: None });
                        proof {
                            assert(self.rows@ =~= old(self).rows@);
                            assert(self.dview() =~~= map_connect(old(self).dview(), key, a, b));
                        }
                    },
                }
            },
            None => {
                proof {
                    assert(self.rows@ =~= old(self).rows@);
                    assert(self.dview() =~~= map_connect(old(self).dview(), key, a, b));
                }
            },
        }
    }

    /// Read the mutable arrays of a puzzle; a missing or unpopulated row
    /// is a failed lookup.
    pub fn get_piece_info(&self, key: u64) -> (r: Result<PieceInfo, Error>)
        requires
            self.wf(),
        ensures
            match r {
                Ok(pi) => {
                    &&& self.populated(key)
                    &&& self@[key].data matches Some(p) && pi.positions@ == p.positions@
                        && pi.connectivity@ == p.connectivity@
                },
                Err(e) => e == Error::BadPuzzleID && !self.populated(key),
            },
    {
        match self.rows.get(&key) {
            Some(row) => match &row.data {
                Some(puzzle) => Ok(
                    PieceInfo {
                        positions: copy_vec(&puzzle.positions),
                        connectivity: copy_vec(&puzzle.connectivity),
                    },
                ),
                None => Err(Error::BadPuzzleID),
            },
            None => Err(Error::BadPuzzleID),
        }
    }

    /// Read a whole puzzle row; a missing or unpopulated row is a failed
    /// lookup.
    pub fn get_puzzle_info(&self, key: u64) -> (r: Result<Puzzle, Error>)
        requires
            self.wf(),
        ensures
            match r {
                Ok(p) => {
                    &&& self.populated(key)
                    &&& self@[key].data matches Some(q) && p.width == q.width && p.height
                        == q.height && p.url@ == q.url@ && p.seed == q.seed && p.positions@
                        == q.positions@ && p.connectivity@ == q.connectivity@
                    &&& p.wf()
                },
                Err(e) => e == Error::BadPuzzleID && !self.populated(key),
            },
    {
        match self.rows.get(&key) {
            Some(row) => match &row.data {
                Some(puzzle) => Ok(
                    Puzzle {
                        width: puzzle.width,
                        height: puzzle.height,
                        url: copy_vec(&puzzle.url),
                        seed: puzzle.seed,
                        positions: copy_vec(&puzzle.positions),
                        connectivity: copy_vec(&puzzle.connectivity),
                    },
                ),
                None => Err(Error::BadPuzzleID),
            },
            None => Err(Error::BadPuzzleID),
        }
    }

    /// Delete every row whose creation time lies a week or more in the
    /// past; every other row survives untouched.
    pub fn sweep(&mut self, now: u64)
        requires
            old(self).wf(),
        ensures
            final(self).wf(),
            forall|k: u64|
                final(self)@.contains_key(k) <==> (#[trigger] old(self)@.contains_key(k) && !stale(
                    old(self)@[k],
                    now,
                )),
            forall|k: u64|
                final(self)@.contains_key(k) ==> #[trigger] final(self)@[k] == old(self)@[k],
    {
        let ghost m0 = self.rows@;
        let ghost ks = self.keys@;
        let n: usize = self.keys.len();
        let mut kept: Vec<u64> = Vec::new();
        let mut i: usize = 0;
        while i < n
            invariant
                i <= n,
                n == ks.len(),
                self.keys@ == ks,
                old(self).wf(),
                m0 == old(self).rows@,
                ks == old(self).keys@,
                kept@.no_duplicates(),
                forall|j: int| 0 <= j < kept@.len() ==> ks.take(i as int).contains(#[trigger] kept@[j]),
                forall|k: u64|
                    #[trigger] kept@.contains(k) <==> (ks.take(i as int).contains(k)
                        && m0.contains_key(k) && !stale(m0[k], now)),
                forall|k: u64|
                    self.rows@.contains_key(k) <==> (#[trigger] m0.contains_key(k) && !(
                    ks.take(i as int).contains(k) && stale(m0[k], now))),
                forall|k: u64|
                    self.rows@.contains_key(k) ==> #[trigger] self.rows@[k] == m0[k],
            decreases n - i,
        {
            let key: u64 = self.keys[i];
            let ghost kept0 = kept@;
            proof {
                assert(ks[i as int] == key);
                assert(m0.contains_key(key));
                assert(!ks.take(i as int).contains(key)) by {
                    let t0 = ks.take(i as int);
                    if t0.contains(key) {
                        let j = choose|j: int| 0 <= j < t0.len() && t0[j] == key;
                        assert(ks[j] == ks[i as int]);
                        assert(j != i);
                    }
                }
            }
            let created: u64 = match self.rows.get(&key) {
                Some(row) => row.created,
                None => {
                    proof {
                        assert(self.rows@.contains_key(key));
                    }
                    0
                },
            };
            let is_stale: bool = created <= now && now - created >= WEEK_SECONDS;
            proof {
                assert(is_stale == stale(m0[key], now));
            }
            if is_stale {
                self.rows.remove(&key);
            } else {
                kept.push(key);
            }
            proof {
                assert(ks.take(i + 1) =~= ks.take(i as int).push(key));
                let t0 = ks.take(i as int);
                let t1 = ks.take(i + 1);
                if !is_stale {
                    assert(kept@ == kept0.push(key));
                    assert forall|k: u64| kept@.contains(k) <==> (kept0.contains(k) || k
                        == key) by {
                        if kept@.contains(k) {
                            let j = choose|j: int| 0 <= j < kept@.len() && kept@[j] == k;
                            if j < kept0.len() {
                                assert(kept0[j] == k);
                            }
                        }
                        if k == key {
                            assert(kept@[kept0.len() as int] == k);
                        }
                        if kept0.contains(k) {
                            let j = choose|j: int| 0 <= j < kept0.len() && kept0[j] == k;
                            assert(kept@[j] == k);
                        }
                    }
                    assert(!kept0.contains(key));
                    assert forall|a: int, b: int|
                        0 <= a < kept@.len() && 0 <= b < kept@.len() && a != b implies kept@[a]
                        != kept@[b] by {
                        if a < kept0.len() && b < kept0.len() {
                            assert(kept0[a] == kept@[a] && kept0[b] == kept@[b]);
                        } else if a < kept0.len() {
                            assert(kept0.contains(kept0[a]));
                        } else if b < kept0.len() {
                            assert(kept0.contains(kept0[b]));
                        }
                    }
                }
                assert forall|k: u64| t1.contains(k) <==> (t0.contains(k) || k == key) by {
                    if t1.contains(k) {
                        let j = choose|j: int| 0 <= j < t1.len() && t1[j] == k;
                        if j < i {
                            assert(t0[j] == k);
                        }
                    }
                    if k == key {
                        assert(t1[i as int] == k);
                    }
                    if t0.contains(k) {
                        let j = choose|j: int| 0 <= j < t0.len() && t0[j] == k;
                        assert(t1[j] == k);
                    }
                }
                assert forall|k: u64|
                    kept@.contains(k) <==> (t1.contains(k) && m0.contains_key(k) && !stale(
                        m0[k],
                        now,
                    )) by {
                    if k == key {
                        assert(t1.contains(key));
                        if is_stale {
                            assert(!kept0.contains(key));
                            assert(kept@ == kept0);
                            assert(!kept@.contains(key));
                        } else {
                            assert(kept@.contains(key));
                        }
                    } else {
                        if is_stale {
                            assert(kept@ == kept0);
                        }
                        assert(kept@.contains(k) <==> kept0.contains(k));
                        assert(kept0.contains(k) <==> (t0.contains(k) && m0.contains_key(k)
                            && !stale(m0[k], now)));
                        assert(t1.contains(k) <==> t0.contains(k));
                    }
                }
            }
            i += 1;
        }
        self.keys = kept;
        proof {
            assert(ks.take(n as int) =~= ks);
            assert forall|i2: int| 0 <= i2 < self.keys@.len() implies self.rows@.contains_key(
                #[trigger] self.keys@[i2],
            ) by {
                assert(self.keys@.contains(self.keys@[i2]));
            }
        }
    }
}

} // verus!
