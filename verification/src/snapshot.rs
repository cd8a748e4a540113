use vstd::prelude::*;

use vstd::bytes::{
    spec_u16_from_le_bytes, spec_u16_to_le_bytes, spec_u32_to_le_bytes, u16_from_le_bytes,
    u16_to_le_bytes, u32_to_le_bytes,
};

use crate::actions::{le32_at, read_u32_at};
use crate::puzzle::Puzzle;

verus! {

/// The bytes of a sequence of 32-bit words, each little-endian.
pub open spec fn words32_le(s: Seq<u32>) -> Seq<u8>
    decreases s.len(),
{
    if s.len() == 0 {
        Seq::empty()
    } else {
        spec_u32_to_le_bytes(s[0]) + words32_le(s.drop_first())
    }
}

/// The bytes of a sequence of 16-bit words, each little-endian.
pub open spec fn words16_le(s: Seq<u16>) -> Seq<u8>
    decreases s.len(),
{
    if s.len() == 0 {
        Seq::empty()
    } else {
        spec_u16_to_le_bytes(s[0]) + words16_le(s.drop_first())
    }
}

/// `n` zero bytes.
pub open spec fn zeros(n: int) -> Seq<u8> {
    Seq::new(n as nat, |i: int| 0u8)
}

/// Bytes needed after a prefix of length `n` to reach a multiple of 8.
pub open spec fn pad8(n: int) -> int {
    if n % 8 == 0 {
        0
    } else {
        8 - n % 8
    }
}

/// The header of a puzzle snapshot, before padding: opcode 1 and three
/// zero bytes, the seed, the dimensions, the NUL-terminated URL.
pub open spec fn opcode1_head(width: u8, height: u8, url: Seq<u8>, seed: u32) -> Seq<u8> {
    seq![1u8, 0u8, 0u8, 0u8] + spec_u32_to_le_bytes(seed) + seq![width, height] + url + seq![0u8]
}

/// The puzzle snapshot sent in reply to `join`: the header, zero-padded to
/// a multiple of 8 bytes, then the positions and the connectivity.
pub open spec fn opcode1_frame(
    width: u8,
    height: u8,
    url: Seq<u8>,
    seed: u32,
    pos: Seq<u32>,
    conn: Seq<u16>,
) -> Seq<u8> {
    let head = opcode1_head(width, height, url, seed);
    head + zeros(pad8(head.len() as int)) + words32_le(pos) + words16_le(conn)
}

/// The poll snapshot sent in reply to `poll`: opcode 2, seven zero bytes,
/// then the positions and the connectivity.
pub open spec fn opcode2_frame(pos: Seq<u32>, conn: Seq<u16>) -> Seq<u8> {
    seq![2u8, 0u8, 0u8, 0u8, 0u8, 0u8, 0u8, 0u8] + words32_le(pos) + words16_le(conn)
}

pub proof fn lemma_words32_le_push(s: Seq<u32>, x: u32)
    ensures
        words32_le(s.push(x)) == words32_le(s) + spec_u32_to_le_bytes(x),
    decreases s.len(),
{
    vstd::bytes::lemma_auto_spec_u32_to_from_le_bytes();
    assert(s.push(x).len() == s.len() + 1);
    assert(s.push(x)[0] == if s.len() == 0 { x } else { s[0] });
    if s.len() == 0 {
        assert(s.push(x).drop_first() =~= Seq::<u32>::empty());
        assert(words32_le(Seq::<u32>::empty()) == Seq::<u8>::empty());
        assert(words32_le(s.push(x)) == spec_u32_to_le_bytes(x) + Seq::<u8>::empty());
        assert(words32_le(s.push(x)) =~= words32_le(s) + spec_u32_to_le_bytes(x));
    } else {
        assert(s.push(x).drop_first() =~= s.drop_first().push(x));
        lemma_words32_le_push(s.drop_first(), x);
        assert(words32_le(s.push(x)) == spec_u32_to_le_bytes(s[0]) + (words32_le(s.drop_first())
            + spec_u32_to_le_bytes(x)));
        assert(words32_le(s.push(x)) =~= words32_le(s) + spec_u32_to_le_bytes(x));
    }
}

pub proof fn lemma_words16_le_push(s: Seq<u16>, x: u16)
    ensures
        words16_le(s.push(x)) == words16_le(s) + spec_u16_to_le_bytes(x),
    decreases s.len(),
{
    vstd::bytes::lemma_auto_spec_u16_to_from_le_bytes();
    assert(s.push(x).len() == s.len() + 1);
    assert(s.push(x)[0] == if s.len() == 0 { x } else { s[0] });
    if s.len() == 0 {
        assert(s.push(x).drop_first() =~= Seq::<u16>::empty());
        assert(words16_le(Seq::<u16>::empty()) == Seq::<u8>::empty());
        assert(words16_le(s.push(x)) == spec_u16_to_le_bytes(x) + Seq::<u8>::empty());
        assert(words16_le(s.push(x)) =~= words16_le(s) + spec_u16_to_le_bytes(x));
    } else {
        assert(s.push(x).drop_first() =~= s.drop_first().push(x));
        lemma_words16_le_push(s.drop_first(), x);
        assert(words16_le(s.push(x)) == spec_u16_to_le_bytes(s[0]) + (words16_le(s.drop_first())
            + spec_u16_to_le_bytes(x)));
        assert(words16_le(s.push(x)) =~= words16_le(s) + spec_u16_to_le_bytes(x));
    }
}

pub proof fn lemma_words32_le_len(s: Seq<u32>)
    ensures
        words32_le(s).len() == 4 * s.len(),
    decreases s.len(),
{
    vstd::bytes::lemma_auto_spec_u32_to_from_le_bytes();
    if s.len() > 0 {
        lemma_words32_le_len(s.drop_first());
    }
}

pub proof fn lemma_words16_le_len(s: Seq<u16>)
    ensures
        words16_le(s).len() == 2 * s.len(),
    decreases s.len(),
{
    vstd::bytes::lemma_auto_spec_u16_to_from_le_bytes();
    if s.len() > 0 {
        lemma_words16_le_len(s.drop_first());
    }
}

/// Append the little-endian bytes of every 32-bit word of `p`.
pub(crate) fn push_words32(p: &Vec<u32>, out: &mut Vec<u8>)
    ensures
        final(out)@ == old(out)@ + words32_le(p@),
{
    let n: usize = p.len();
    let mut i: usize = 0;
    proof {
        assert(p@.take(0) =~= Seq::<u32>::empty());
        assert(out@ =~= out@ + words32_le(p@.take(0)));
    }
    while i < n
        invariant
            i <= n,
            n == p@.len(),
            out@ == old(out)@ + words32_le(p@.take(i as int)),
        decreases n - i,
    {
        let mut word: Vec<u8> = u32_to_le_bytes(p[i]);
        out.append(&mut word);
        proof {
            assert(p@.take(i + 1) =~= p@.take(i as int).push(p@[i as int]));
            lemma_words32_le_push(p@.take(i as int), p@[i as int]);
        }
        i += 1;
    }
    proof {
        assert(p@.take(n as int) =~= p@);
    }
}

/// Append the little-endian bytes of every 16-bit word of `c`.
pub(crate) fn push_words16(c: &Vec<u16>, out: &mut Vec<u8>)
    ensures
        final(out)@ == old(out)@ + words16_le(c@),
{
    let n: usize = c.len();
    let mut i: usize = 0;
    proof {
        assert(c@.take(0) =~= Seq::<u16>::empty());
        assert(out@ =~= out@ + words16_le(c@.take(0)));
    }
    while i < n
        invariant
            i <= n,
            n == c@.len(),
            out@ == old(out)@ + words16_le(c@.take(i as int)),
        decreases n - i,
    {
        let mut word: Vec<u8> = u16_to_le_bytes(c[i]);
        out.append(&mut word);
        proof {
            assert(c@.take(i + 1) =~= c@.take(i as int).push(c@[i as int]));
            lemma_words16_le_push(c@.take(i as int), c@[i as int]);
        }
        i += 1;
    }
    proof {
        assert(c@.take(n as int) =~= c@);
    }
}

/// Encode the puzzle snapshot (opcode 1) for the given row fields.
pub fn encode_puzzle_snapshot(
    width: u8,
    height: u8,
    url: &Vec<u8>,
    seed: u32,
    positions: &Vec<u32>,
    connectivity: &Vec<u16>,
) -> (r: Vec<u8>)
    requires
        url@.len() <= 2048,
    ensures
        r@ == opcode1_frame(width, height, url@, seed, positions@, connectivity@),
{
    let ghost head = opcode1_head(width, height, url@, seed);
    let mut out: Vec<u8> = Vec::new();
    out.push(1);
    out.push(0);
    out.push(0);
    out.push(0);
    let mut seed_bytes: Vec<u8> = u32_to_le_bytes(seed);
    out.append(&mut seed_bytes);
    out.push(width);
    out.push(height);
    out.extend_from_slice(url.as_slice());
    out.push(0);
    proof {
        assert(out@ =~= head);
    }
    let pad: usize = (8 - (out.len() % 8)) % 8;
    proof {
        assert(pad == pad8(head.len() as int));
    }
    let mut k: usize = 0;
    while k < pad
        invariant
            k <= pad,
            out@ == head + zeros(k as int),
        decreases pad - k,
    {
        out.push(0);
        proof {
            assert(out@ =~= head + zeros(k + 1));
        }
        k += 1;
    }
    push_words32(positions, &mut out);
    push_words16(connectivity, &mut out);
    proof {
        assert(out@ =~= opcode1_frame(width, height, url@, seed, positions@, connectivity@));
    }
    out
}

/// Encode the poll snapshot (opcode 2) for the given arrays.
pub fn encode_poll_snapshot(positions: &Vec<u32>, connectivity: &Vec<u16>) -> (r: Vec<u8>)
    ensures
        r@ == opcode2_frame(positions@, connectivity@),
{
    let mut out: Vec<u8> = Vec::new();
    out.push(2);
    let mut k: usize = 0;
    while k < 7
        invariant
            k <= 7,
            out@.len() == k + 1,
            out@[0] == 2u8,
            forall|i: int| 1 <= i < out@.len() ==> out@[i] == 0u8,
        decreases 7 - k,
    {
        out.push(0);
        k += 1;
    }
    proof {
        assert(out@ =~= seq![2u8, 0u8, 0u8, 0u8, 0u8, 0u8, 0u8, 0u8]);
    }
    push_words32(positions, &mut out);
    push_words16(connectivity, &mut out);
    proof {
        assert(out@ =~= opcode2_frame(positions@, connectivity@));
    }
    out
}

/// The little-endian 16-bit word at byte offset `pos`.
pub open spec fn le16_at(d: Seq<u8>, pos: int) -> u16 {
    spec_u16_from_le_bytes(d.subrange(pos, pos + 2))
}

/// First index at or after `i` holding a zero byte, or the length.
pub open spec fn scan_nul(d: Seq<u8>, i: int) -> int
    decreases d.len() - i,
{
    if i >= d.len() {
        d.len() as int
    } else if d[i] == 0 {
        i
    } else {
        scan_nul(d, i + 1)
    }
}

/// Every byte of `d` in `[from, to)` is zero.
pub open spec fn all_zero(d: Seq<u8>, from: int, to: int) -> bool {
    forall|j: int| from <= j < to ==> d[j] == 0
}

/// Read a puzzle snapshot back by its documented layout: opcode 1 and
/// padding, the seed, the dimensions, the NUL-terminated URL, zero padding
/// to a multiple of 8, then exactly the two arrays the dimensions call for.
pub open spec fn spec_parse_snapshot(d: Seq<u8>) -> Option<(u8, u8, Seq<u8>, u32, Seq<u32>, Seq<
    u16,
>)> {
    if d.len() < 10 || d[0] != 1 || d[1] != 0 || d[2] != 0 || d[3] != 0 {
        None
    } else {
        let seed = le32_at(d, 4);
        let w = d[8];
        let h = d[9];
        let nul = scan_nul(d, 10);
        if nul >= d.len() {
            None
        } else {
            let url = d.subrange(10, nul);
            let start = nul + 1 + pad8(nul + 1);
            let wh = (w as int) * (h as int);
            if d.len() != start + 10 * wh || !all_zero(d, nul + 1, start) {
                None
            } else {
                let pos = Seq::new((2 * wh) as nat, |i: int| le32_at(d, start + 4 * i));
                let conn = Seq::new(wh as nat, |i: int| le16_at(d, start + 8 * wh + 2 * i));
                Some((w, h, url, seed, pos, conn))
            }
        }
    }
}

/// Read the little-endian 16-bit word at byte offset `pos`.
fn read_u16_at(d: &Vec<u8>, pos: usize) -> (r: u16)
    requires
        pos + 2 <= d@.len(),
    ensures
        r == le16_at(d@, pos as int),
{
    let n: usize = d.len();
    proof {
        assert(pos + 2 <= n);
    }
    let s: &[u8] = vstd::slice::slice_subrange(d.as_slice(), pos, pos + 2);
    u16_from_le_bytes(s)
}

/// Decode a puzzle snapshot, mirroring [`spec_parse_snapshot`].  The result
/// is the reconstructed row.
#[verifier::loop_isolation(false)]
pub fn decode_puzzle_snapshot(d: &Vec<u8>) -> (r: Option<Puzzle>)
    ensures
        match r {
            Some(p) => spec_parse_snapshot(d@) == Some(
                (p.width, p.height, p.url@, p.seed, p.positions@, p.connectivity@),
            ),
            None => spec_parse_snapshot(d@) is None,
        },
{
    let n: usize = d.len();
    if n < 10 || d[0] != 1 || d[1] != 0 || d[2] != 0 || d[3] != 0 {
        return None;
    }
    let seed: u32 = read_u32_at(d, 4);
    let w: u8 = d[8];
    let h: u8 = d[9];
    let mut nul: usize = 10;
    while nul < n && d[nul] != 0
        invariant
            10 <= nul <= n,
            n == d@.len(),
            scan_nul(d@, 10) == scan_nul(d@, nul as int),
        decreases n - nul,
    {
        nul += 1;
    }
    if nul >= n {
        return None;
    }
    let url = crate::numbers::subvec(d, 10, nul);
    let pad: usize = (8 - ((nul + 1) % 8)) % 8;
    proof {
        assert(pad == pad8(nul + 1));
        assert(0 <= (w as int) * (h as int) <= 65025) by (nonlinear_arith)
            requires
                w <= 255,
                h <= 255,
        ;
    }
    let wh: usize = (w as usize) * (h as usize);
    if n - (nul + 1) < pad {
        proof {
            assert(d@.len() < nul + 1 + pad8(nul + 1) + 10 * ((w as int) * (h as int)));
        }
        return None;
    }
    let start: usize = nul + 1 + pad;
    if n - start != 10 * wh {
        return None;
    }
    let mut z: usize = nul + 1;
    while z < start
        invariant
            nul + 1 <= z <= start <= n,
            n == d@.len(),
            all_zero(d@, nul + 1, z as int),
        decreases start - z,
    {
        if d[z] != 0 {
            proof {
                assert(scan_nul(d@, 10) == nul as int);
                assert(!all_zero(d@, nul + 1, nul + 1 + pad8(nul + 1)));
            }
            return None;
        }
        z += 1;
    }
    let mut positions: Vec<u32> = Vec::new();
    let mut i: usize = 0;
    while i < 2 * wh
        invariant
            i <= 2 * wh,
            n == d@.len(),
            n - start == 10 * wh,
            start <= n,
            positions@.len() == i,
            forall|j: int|
                0 <= j < i ==> positions@[j] == le32_at(d@, start + 4 * j),
        decreases 2 * wh - i,
    {
        positions.push(read_u32_at(d, start + 4 * i));
        i += 1;
    }
    let cstart: usize = start + 8 * wh;
    let mut connectivity: Vec<u16> = Vec::new();
    let mut k: usize = 0;
    while k < wh
        invariant
            k <= wh,
            n == d@.len(),
            n - start == 10 * wh,
            start <= n,
            cstart == start + 8 * wh,
            connectivity@.len() == k,
            forall|j: int|
                0 <= j < k ==> connectivity@[j] == le16_at(d@, cstart + 2 * j),
        decreases wh - k,
    {
        connectivity.push(read_u16_at(d, cstart + 2 * k));
        k += 1;
    }
    proof {
        let ghost whi = (w as int) * (h as int);
        assert(positions@ =~= Seq::new((2 * whi) as nat, |i: int| le32_at(d@, start + 4 * i)));
        assert(connectivity@ =~= Seq::new(
            whi as nat,
            |i: int| le16_at(d@, start + 8 * whi + 2 * i),
        ));
    }
    Some(Puzzle { width: w, height: h, url, seed, positions, connectivity })
}

proof fn lemma_scan_nul_finds(d: Seq<u8>, i: int, k: int)
    requires
        0 <= i <= k < d.len(),
        d[k] == 0,
        forall|j: int| i <= j < k ==> d[j] != 0,
    ensures
        scan_nul(d, i) == k,
    decreases k - i,
{
    if i < k {
        lemma_scan_nul_finds(d, i + 1, k);
    }
}

proof fn lemma_words32_le_index(s: Seq<u32>, i: int)
    requires
        0 <= i < s.len(),
    ensures
        words32_le(s).subrange(4 * i, 4 * i + 4) == spec_u32_to_le_bytes(s[i]),
    decreases i,
{
    vstd::bytes::lemma_auto_spec_u32_to_from_le_bytes();
    lemma_words32_le_len(s);
    lemma_words32_le_len(s.drop_first());
    if i == 0 {
        assert(words32_le(s).subrange(0, 4) =~= spec_u32_to_le_bytes(s[0]));
    } else {
        lemma_words32_le_index(s.drop_first(), i - 1);
        assert(s.drop_first()[i - 1] == s[i]);
        assert(words32_le(s).subrange(4 * i, 4 * i + 4) =~= words32_le(s.drop_first()).subrange(
            4 * (i - 1),
            4 * (i - 1) + 4,
        ));
    }
}

proof fn lemma_words16_le_index(s: Seq<u16>, i: int)
    requires
        0 <= i < s.len(),
    ensures
        words16_le(s).subrange(2 * i, 2 * i + 2) == spec_u16_to_le_bytes(s[i]),
    decreases i,
{
    vstd::bytes::lemma_auto_spec_u16_to_from_le_bytes();
    lemma_words16_le_len(s);
    lemma_words16_le_len(s.drop_first());
    if i == 0 {
        assert(words16_le(s).subrange(0, 2) =~= spec_u16_to_le_bytes(s[0]));
    } else {
        lemma_words16_le_index(s.drop_first(), i - 1);
        assert(s.drop_first()[i - 1] == s[i]);
        assert(words16_le(s).subrange(2 * i, 2 * i + 2) =~= words16_le(s.drop_first()).subrange(
            2 * (i - 1),
            2 * (i - 1) + 2,
        ));
    }
}

/// Round trip: the bytes of a puzzle snapshot, read back by the documented
/// layout, yield exactly the dimensions, URL, seed, positions and
/// connectivity that were encoded.  The URL must hold no NUL byte, since a
/// NUL terminates it on the wire.
pub proof fn lemma_snapshot_round_trip(
    width: u8,
    height: u8,
    url: Seq<u8>,
    seed: u32,
    pos: Seq<u32>,
    conn: Seq<u16>,
)
    requires
        forall|i: int| 0 <= i < url.len() ==> url[i] != 0,
        pos.len() == 2 * (width * height),
        conn.len() == width * height,
    ensures
        spec_parse_snapshot(opcode1_frame(width, height, url, seed, pos, conn)) == Some(
            (width, height, url, seed, pos, conn),
        ),
{
    vstd::bytes::lemma_auto_spec_u32_to_from_le_bytes();
    vstd::bytes::lemma_auto_spec_u16_to_from_le_bytes();
    lemma_words32_le_len(pos);
    lemma_words16_le_len(conn);
    let head = opcode1_head(width, height, url, seed);
    let hl = head.len() as int;
    let pad = pad8(hl);
    let start = hl + pad;
    let wh = (width as int) * (height as int);
    let d = opcode1_frame(width, height, url, seed, pos, conn);
    assert(hl == 11 + url.len());
    assert(d.len() == start + 4 * pos.len() + 2 * conn.len());
    assert(4 * pos.len() + 2 * conn.len() == 10 * wh);
    assert(d[0] == 1u8 && d[1] == 0u8 && d[2] == 0u8 && d[3] == 0u8);
    assert(d.subrange(4, 8) =~= spec_u32_to_le_bytes(seed));
    assert(le32_at(d, 4) == seed);
    assert(d[8] == width && d[9] == height);
    assert forall|j: int| 10 <= j < 10 + url.len() implies d[j] != 0 by {
        assert(d[j] == url[j - 10]);
    }
    assert(d[10 + url.len() as int] == 0);
    lemma_scan_nul_finds(d, 10, 10 + url.len() as int);
    let nul = 10 + url.len() as int;
    assert(nul + 1 == hl);
    assert(d.subrange(10, nul) =~= url);
    assert(all_zero(d, nul + 1, start)) by {
        assert forall|j: int| nul + 1 <= j < start implies d[j] == 0 by {
            assert(d[j] == zeros(pad)[j - hl]);
        }
    }
    assert(d.subrange(start, start + 4 * pos.len()) =~= words32_le(pos));
    assert(d.subrange(start + 4 * pos.len(), d.len() as int) =~= words16_le(conn));
    assert forall|i: int| 0 <= i < 2 * wh implies le32_at(d, start + 4 * i) == pos[i] by {
        lemma_words32_le_index(pos, i);
        assert(d.subrange(start + 4 * i, start + 4 * i + 4) =~= words32_le(pos).subrange(
            4 * i,
            4 * i + 4,
        ));
        assert(le32_at(d, start + 4 * i) == vstd::bytes::spec_u32_from_le_bytes(
            spec_u32_to_le_bytes(pos[i]),
        ));
    }
    let cstart = start + 8 * wh;
    assert(cstart == start + 4 * pos.len());
    assert forall|i: int| 0 <= i < wh implies le16_at(d, cstart + 2 * i) == conn[i] by {
        lemma_words16_le_index(conn, i);
        assert(d.subrange(cstart + 2 * i, cstart + 2 * i + 2) =~= words16_le(conn).subrange(
            2 * i,
            2 * i + 2,
        ));
        assert(le16_at(d, cstart + 2 * i) == vstd::bytes::spec_u16_from_le_bytes(
            spec_u16_to_le_bytes(conn[i]),
        ));
    }
    assert(Seq::new((2 * wh) as nat, |i: int| le32_at(d, start + 4 * i)) =~= pos);
    assert(Seq::new(wh as nat, |i: int| le16_at(d, cstart + 2 * i)) =~= conn);
}

} // verus!
