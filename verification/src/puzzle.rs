use vstd::prelude::*;

verus! {

/// Protocol cap on the number of pieces of one puzzle.
pub const MAX_PIECES: u32 = 1000;

/// Cap on the number of concurrently joined players per puzzle.
pub const MAX_PLAYERS: u32 = 20;

/// A piece coordinate travels as the 32 bits of an IEEE-754 single.  The
/// protocol accepts a coordinate iff it is finite and lies in `[0.0, 2.0]`.
/// For non-negative singles the bit pattern is monotone in the value, the
/// pattern of `2.0` is `0x4000_0000`, and every NaN or infinity pattern is
/// larger; the only accepted pattern with the sign bit set is `-0.0`, which
/// compares equal to `0.0`.  So the accepted set is exactly the patterns
/// below.
pub open spec fn coord_ok(bits: u32) -> bool {
    bits <= 0x4000_0000 || bits == 0x8000_0000
}

/// The protocol-layer guard on a piece index: anything beyond the cap is
/// rejected before the store is touched.
pub fn check_piece_index(piece: u32) -> (r: Result<(), crate::error::Error>)
    ensures
        r == if piece > MAX_PIECES {
            Err::<(), crate::error::Error>(crate::error::Error::BadPieceID)
        } else {
            Ok::<(), crate::error::Error>(())
        },
{
    if piece > MAX_PIECES {
        Err(crate::error::Error::BadPieceID)
    } else {
        Ok(())
    }
}

/// Runtime test of [`coord_ok`].
pub fn coord_in_range(bits: u32) -> (r: bool)
    ensures
        r == coord_ok(bits),
{
    bits <= 0x4000_0000 || bits == 0x8000_0000
}

/// One puzzle row: board dimensions, image reference, the client seed, and
/// the two flat arrays that all mutations act on.  `positions` holds the
/// coordinate bit patterns of piece `i` at indices `2i` and `2i + 1`;
/// `connectivity` holds the group label of each piece, and two pieces are in
/// the same connected group iff their labels are equal.
#[derive(Debug)]
pub struct Puzzle {
    pub width: u8,
    pub height: u8,
    pub url: Vec<u8>,
    pub seed: u32,
    pub positions: Vec<u32>,
    pub connectivity: Vec<u16>,
}

/// Merge the group of piece `a` into the group of piece `b`: every cell
/// carrying the label of `a` is rewritten to the label of `b`, in one step.
/// Out-of-range pieces leave the labels unchanged, as the store's guarded
/// update matches no row.
pub open spec fn connect_labels(c: Seq<u16>, a: int, b: int) -> Seq<u16> {
    if 0 <= a < c.len() && 0 <= b < c.len() {
        Seq::new(c.len(), |i: int| if c[i] == c[a] { c[b] } else { c[i] })
    } else {
        c
    }
}

/// Two pieces are in the same group iff their labels are equal.
pub open spec fn same_group(c: Seq<u16>, a: int, b: int) -> bool
    recommends
        0 <= a < c.len(),
        0 <= b < c.len(),
{
    c[a] == c[b]
}

/// Write the coordinates of `piece` into the flat positions array; a piece
/// out of range (`2 * piece + 1 >= |p|`) leaves the array unchanged, as the
/// store's guarded update matches no row.
pub open spec fn move_positions(p: Seq<u32>, piece: int, x: u32, y: u32) -> Seq<u32> {
    if 0 <= piece && 2 * piece + 1 < p.len() {
        p.update(2 * piece, x).update(2 * piece + 1, y)
    } else {
        p
    }
}

/// Fully mathematical image of a puzzle row.
pub struct PuzzleView {
    pub width: u8,
    pub height: u8,
    pub url: Seq<u8>,
    pub seed: u32,
    pub positions: Seq<u32>,
    pub connectivity: Seq<u16>,
}

impl Puzzle {
    /// The number of pieces on the board.
    pub open spec fn piece_count(self) -> int {
        self.width * self.height
    }

    /// The row by value.
    pub open spec fn pview(self) -> PuzzleView {
        PuzzleView {
            width: self.width,
            height: self.height,
            url: self.url@,
            seed: self.seed,
            positions: self.positions@,
            connectivity: self.connectivity@,
        }
    }

    /// Well-formedness of a populated row: the dimensions are in range, the
    /// URL fits, the arrays have their mandated lengths, every group label
    /// names a piece, and every stored coordinate was accepted by the
    /// protocol at some point.
    pub open spec fn wf(self) -> bool {
        &&& 3 <= self.width
        &&& 3 <= self.height
        &&& self.piece_count() <= MAX_PIECES
        &&& self.url@.len() <= 2048
        &&& self.positions@.len() == 2 * self.piece_count()
        &&& self.connectivity@.len() == self.piece_count()
        &&& forall|i: int|
            0 <= i < self.connectivity@.len() ==> (self.connectivity@[i] as int)
                < self.piece_count()
        &&& forall|i: int| 0 <= i < self.positions@.len() ==> coord_ok(#[trigger] self.positions@[i])
    }

    /// Set the two coordinates of `piece`, if `piece` names a piece of this
    /// board; otherwise do nothing.  This is the row-level semantics of the
    /// store's guarded `move` update.
    pub fn apply_move(&mut self, piece: u32, x: u32, y: u32)
        requires
            old(self).wf(),
            coord_ok(x),
            coord_ok(y),
        ensures
            final(self).wf(),
            final(self).positions@ == move_positions(old(self).positions@, piece as int, x, y),
            final(self).width == old(self).width,
            final(self).height == old(self).height,
            final(self).url@ == old(self).url@,
            final(self).seed == old(self).seed,
            final(self).connectivity@ == old(self).connectivity@,
            piece < old(self).piece_count() ==> final(self).positions@[2 * piece as int] == x
                && final(self).positions@[2 * piece as int + 1] == y,
            forall|i: int|
                0 <= i < old(self).positions@.len() && i != 2 * piece as int && i != 2 * piece
                    as int + 1 ==> final(self).positions@[i] == old(self).positions@[i],
    {
        let wh: u32 = (self.width as u32) * (self.height as u32);
        if piece < wh {
            let i0: usize = (2 * piece) as usize;
            self.positions[i0] = x;
            self.positions[i0 + 1] = y;
        }
    }

    /// Merge the group of `a` into the group of `b`, if both name pieces of
    /// this board; otherwise do nothing.  This is the row-level semantics of
    /// the store's guarded replace-all `connect` update.
    pub fn apply_connect(&mut self, a: u32, b: u32)
        requires
            old(self).wf(),
        ensures
            final(self).wf(),
            final(self).connectivity@ == connect_labels(
                old(self).connectivity@,
                a as int,
                b as int,
            ),
            final(self).width == old(self).width,
            final(self).height == old(self).height,
            final(self).url@ == old(self).url@,
            final(self).seed == old(self).seed,
            final(self).positions@ == old(self).positions@,
    {
        let wh: u32 = (self.width as u32) * (self.height as u32);
        if a < wh && b < wh {
            let label_a: u16 = self.connectivity[a as usize];
            let label_b: u16 = self.connectivity[b as usize];
            let n: usize = self.connectivity.len();
            let mut i: usize = 0;
            while i < n
                invariant
                    n == self.connectivity@.len(),
                    i <= n,
                    a < n,
                    b < n,
                    label_a == old(self).connectivity@[a as int],
                    label_b == old(self).connectivity@[b as int],
                    self.connectivity@.len() == old(self).connectivity@.len(),
                    forall|j: int|
                        0 <= j < i ==> self.connectivity@[j] == (if old(self).connectivity@[j]
                            == label_a {
                            label_b
                        } else {
                            old(self).connectivity@[j]
                        }),
                    forall|j: int|
                        i <= j < n ==> self.connectivity@[j] == old(self).connectivity@[j],
                    self.width == old(self).width,
                    self.height == old(self).height,
                    self.url@ == old(self).url@,
                    self.seed == old(self).seed,
                    self.positions@ == old(self).positions@,
                decreases n - i,
            {
                if self.connectivity[i] == label_a {
                    self.connectivity[i] = label_b;
                }
                i += 1;
            }
            proof {
                assert(self.connectivity@ =~= connect_labels(
                    old(self).connectivity@,
                    a as int,
                    b as int,
                ));
            }
        }
    }
}

/// All-zero initial positions: `2 * width * height` coordinates of `0.0`.
pub fn initial_positions(width: u8, height: u8) -> (r: Vec<u32>)
    requires
        width * height <= MAX_PIECES,
    ensures
        r@.len() == 2 * (width * height),
        forall|i: int| 0 <= i < r@.len() ==> r@[i] == 0,
{
    let n: usize = 2 * ((width as usize) * (height as usize));
    proof {
        assert(2 * ((width as int) * (height as int)) == 2 * width * height) by (nonlinear_arith);
    }
    vec![0u32; n]
}

/// The identity group labelling `[0, 1, ..., width * height - 1]`: every
/// piece starts in a group of its own.
pub fn initial_connectivity(width: u8, height: u8) -> (r: Vec<u16>)
    requires
        width * height <= MAX_PIECES,
    ensures
        r@.len() == width * height,
        forall|i: int| 0 <= i < r@.len() ==> r@[i] == i,
{
    let n: usize = (width as usize) * (height as usize);
    let mut r: Vec<u16> = Vec::new();
    let mut i: usize = 0;
    while i < n
        invariant
            i <= n,
            n <= MAX_PIECES,
            r@.len() == i,
            forall|j: int| 0 <= j < i ==> r@[j] == j,
        decreases n - i,
    {
        r.push(i as u16);
        i += 1;
    }
    r
}

/// Connecting makes the two pieces share a group: after
/// `connect_labels(c, a, b)` the labels of `a` and `b` are equal.
pub proof fn lemma_connect_connects(c: Seq<u16>, a: int, b: int)
    requires
        0 <= a < c.len(),
        0 <= b < c.len(),
    ensures
        same_group(connect_labels(c, a, b), a, b),
{
}

/// Connecting never splits a group: any two pieces already in one group are
/// still in one group after any later merge.
pub proof fn lemma_connect_preserves_same_group(c: Seq<u16>, a: int, b: int, x: int, y: int)
    requires
        0 <= x < c.len(),
        0 <= y < c.len(),
        same_group(c, x, y),
    ensures
        same_group(connect_labels(c, a, b), x, y),
{
}

/// After `connect(a, b)` followed by `connect(x, y)`, pieces `a` and `b`
/// share a group and pieces `x` and `y` share a group.
pub proof fn lemma_connect_twice(c: Seq<u16>, a: int, b: int, x: int, y: int)
    requires
        0 <= a < c.len(),
        0 <= b < c.len(),
        0 <= x < c.len(),
        0 <= y < c.len(),
    ensures
        same_group(connect_labels(connect_labels(c, a, b), x, y), a, b),
        same_group(connect_labels(connect_labels(c, a, b), x, y), x, y),
{
    lemma_connect_connects(c, a, b);
    lemma_connect_preserves_same_group(connect_labels(c, a, b), x, y, a, b);
    lemma_connect_connects(connect_labels(c, a, b), x, y);
}

/// The relation "same group" induced by equal labels is an equivalence:
/// reflexive, symmetric and transitive.
pub proof fn lemma_same_group_equivalence(c: Seq<u16>)
    ensures
        forall|a: int| 0 <= a < c.len() ==> same_group(c, a, a),
        forall|a: int, b: int|
            0 <= a < c.len() && 0 <= b < c.len() && same_group(c, a, b) ==> same_group(c, b, a),
        forall|a: int, b: int, d: int|
            0 <= a < c.len() && 0 <= b < c.len() && 0 <= d < c.len() && same_group(c, a, b)
                && same_group(c, b, d) ==> same_group(c, a, d),
{
}

/// A second `connect(a, b)` right after a first is a no-op.
pub proof fn lemma_connect_idempotent(c: Seq<u16>, a: int, b: int)
    ensures
        connect_labels(connect_labels(c, a, b), a, b) == connect_labels(c, a, b),
{
    if 0 <= a < c.len() && 0 <= b < c.len() {
        let c1 = connect_labels(c, a, b);
        assert(connect_labels(c1, a, b) =~= c1);
    }
}

} // verus!
