use vstd::prelude::*;

use crate::snapshot::{push_words16, push_words32, words16_le, words32_le};

verus! {

/// Offset basis of the 64-bit FNV-1a hash.
pub const FNV_OFFSET: u64 = 0xcbf29ce484222325;

/// Prime of the 64-bit FNV-1a hash.
pub const FNV_PRIME: u64 = 0x100000001b3;

/// 64-bit FNV-1a over a byte sequence: fold each byte in with xor, then a
/// wrapping multiply by the FNV prime.
pub open spec fn fnv64(bytes: Seq<u8>) -> u64
    decreases bytes.len(),
{
    if bytes.len() == 0 {
        FNV_OFFSET
    } else {
        vstd::wrapping::u64_specs::wrapping_mul(
            fnv64(bytes.drop_last()) ^ (bytes.last() as u64),
            FNV_PRIME,
        )
    }
}

/// The digest a `poll` records for suppression: FNV-1a over the raw
/// little-endian bytes of the positions followed by the connectivity.
pub open spec fn spec_poll_digest(pos: Seq<u32>, conn: Seq<u16>) -> u64 {
    fnv64(words32_le(pos) + words16_le(conn))
}

/// Hash a byte vector with 64-bit FNV-1a.
pub fn fnv_hash(bytes: &Vec<u8>) -> (r: u64)
    ensures
        r == fnv64(bytes@),
{
    let n: usize = bytes.len();
    let mut h: u64 = FNV_OFFSET;
    let mut i: usize = 0;
    proof {
        assert(bytes@.take(0) =~= Seq::<u8>::empty());
    }
    while i < n
        invariant
            i <= n,
            n == bytes@.len(),
            h == fnv64(bytes@.take(i as int)),
        decreases n - i,
    {
        h = (h ^ (bytes[i] as u64)).wrapping_mul(FNV_PRIME);
        proof {
            assert(bytes@.take(i + 1).drop_last() =~= bytes@.take(i as int));
            assert(bytes@.take(i + 1).last() == bytes@[i as int]);
        }
        i += 1;
    }
    proof {
        assert(bytes@.take(n as int) =~= bytes@);
    }
    h
}

/// Digest the mutable state of a puzzle for `poll` suppression.
pub fn poll_digest(positions: &Vec<u32>, connectivity: &Vec<u16>) -> (r: u64)
    ensures
        r == spec_poll_digest(positions@, connectivity@),
{
    let mut bytes: Vec<u8> = Vec::new();
    push_words32(positions, &mut bytes);
    push_words16(connectivity, &mut bytes);
    fnv_hash(&bytes)
}

} // verus!
