use vstd::prelude::*;

verus! {

/// Length of a puzzle identifier.
pub const ID_LEN: usize = 7;

/// Size of the identifier alphabet.
pub const ID_CHARSET_LEN: usize = 57;

/// The identifier alphabet, by index: the digits `2`–`9`, the lower-case
/// letters without `l`, the upper-case letters without `I` and `O` — 57
/// visually unambiguous characters.
pub open spec fn spec_id_char(i: int) -> u8 {
    if i < 8 {
        (0x32 + i) as u8  // '2'..'9'
    } else if i < 19 {
        (0x61 + (i - 8)) as u8  // 'a'..'k'
    } else if i < 33 {
        (0x6d + (i - 19)) as u8  // 'm'..'z'
    } else if i < 41 {
        (0x41 + (i - 33)) as u8  // 'A'..'H'
    } else if i < 46 {
        (0x4a + (i - 41)) as u8  // 'J'..'N'
    } else {
        (0x50 + (i - 46)) as u8  // 'P'..'Z'
    }
}

/// A byte of the identifier alphabet.
pub open spec fn is_id_byte(b: u8) -> bool {
    exists|i: int| 0 <= i < 57 && b == spec_id_char(i)
}

/// The alphabet character at index `i`.
pub fn id_char(i: usize) -> (r: u8)
    requires
        i < 57,
    ensures
        r == spec_id_char(i as int),
        is_id_byte(r),
{
    let r: u8 = if i < 8 {
        0x32 + (i as u8)
    } else if i < 19 {
        0x61 + (i as u8 - 8)
    } else if i < 33 {
        0x6d + (i as u8 - 19)
    } else if i < 41 {
        0x41 + (i as u8 - 33)
    } else if i < 46 {
        0x4a + (i as u8 - 41)
    } else {
        0x50 + (i as u8 - 46)
    };
    proof {
        assert(r == spec_id_char(i as int));
    }
    r
}

/// Relies on `rand::RngExt::random_range` over `0..n`, on the thread-local
/// generator: a random index below `n`.  The range is non-empty, so the
/// call cannot panic; nothing more is promised of the value.
#[verifier::external_body]
pub(crate) fn random_below(n: usize) -> (r: usize)
    requires
        0 < n,
    ensures
        r < n,
{
    <rand::rngs::ThreadRng as rand::RngExt>::random_range(&mut rand::rng(), 0..n)
}

/// Draw a fresh 7-character identifier from the alphabet.  Uniqueness is
/// the caller's business: it retries while the store reports a collision.
pub fn generate_puzzle_id() -> (r: Vec<u8>)
    ensures
        r@.len() == ID_LEN,
        forall|i: int| 0 <= i < r@.len() ==> is_id_byte(#[trigger] r@[i]),
{
    let mut id: Vec<u8> = Vec::new();
    let mut k: usize = 0;
    while k < ID_LEN
        invariant
            k <= ID_LEN,
            id@.len() == k,
            forall|i: int| 0 <= i < id@.len() ==> is_id_byte(#[trigger] id@[i]),
        decreases ID_LEN - k,
    {
        let c: u8 = id_char(random_below(ID_CHARSET_LEN));
        id.push(c);
        k += 1;
    }
    id
}

/// An identifier condensed to one integer: its 7 bytes in base 256, least
/// significant first.  Process-local keys for the presence map and the row
/// model.
pub open spec fn spec_id_key(id: Seq<u8>) -> int
    decreases id.len(),
{
    if id.len() == 0 {
        0
    } else {
        id[0] + 256 * spec_id_key(id.drop_first())
    }
}

/// 256 to the `n`th power.
pub open spec fn pow256(n: int) -> int
    decreases n,
{
    if n <= 0 {
        1
    } else {
        256 * pow256(n - 1)
    }
}

pub proof fn lemma_id_key_bound(s: Seq<u8>)
    ensures
        0 <= spec_id_key(s) < pow256(s.len() as int),
    decreases s.len(),
{
    if s.len() > 0 {
        lemma_id_key_bound(s.drop_first());
    }
}

/// Condense an identifier to its key.
#[verifier::loop_isolation(false)]
pub fn id_key(id: &Vec<u8>) -> (r: u64)
    requires
        id@.len() == ID_LEN,
    ensures
        r == spec_id_key(id@),
{
    proof {
        assert(pow256(0) == 1);
        assert(pow256(1) == 256);
        assert(pow256(2) == 0x10000);
        assert(pow256(3) == 0x1000000);
        assert(pow256(4) == 0x100000000);
        assert(pow256(5) == 0x10000000000);
        assert(pow256(6) == 0x1000000000000);
        assert(pow256(7) == 0x100000000000000);
    }
    let mut key: u64 = 0;
    let mut i: usize = ID_LEN;
    while i > 0
        invariant
            i <= ID_LEN,
            id@.len() == ID_LEN,
            key == spec_id_key(id@.skip(i as int)),
            key < pow256(7 - i),
        decreases i,
    {
        proof {
            lemma_id_key_bound(id@.skip(i - 1));
            assert(id@.skip(i - 1).drop_first() =~= id@.skip(i as int));
            assert(id@.skip(i - 1)[0] == id@[i - 1]);
            assert(pow256(7 - (i - 1)) <= pow256(7));
        }
        key = key * 256 + (id[i - 1] as u64);
        i -= 1;
    }
    proof {
        assert(id@.skip(0) =~= id@);
    }
    key
}

} // verus!
